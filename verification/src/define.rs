//! The definition of a system (`sys/sys_model.yml`): its name, its target
//! model when it has one, its kind and its vendor.

use vstd::prelude::*;
use crate::conf::SysKind;
use crate::text::{append_chars, chars_of, string_of};

verus! {

/// CPU architecture of a target model.
#[derive(Clone, Copy, Debug, PartialEq, Eq, Structural)]
pub enum CpuArch {
    X86,
    Arm,
}

/// Operating system of a target model.
#[derive(Clone, Copy, Debug, PartialEq, Eq, Structural)]
pub enum OsCPE {
    MAC14,
    UBT22,
}

/// Runtime of a target model.
#[derive(Clone, Copy, Debug, PartialEq, Eq, Structural)]
pub enum RunSPC {
    Host,
    K8S,
}

/// A target model: architecture, operating system and runtime.
#[derive(Clone, Copy, Debug, PartialEq, Eq, Structural)]
pub struct ModelSTD {
    pub arch: CpuArch,
    pub os: OsCPE,
    pub spc: RunSPC,
}

pub open spec fn arch_name(a: CpuArch) -> Seq<char> {
    match a {
        CpuArch::X86 => seq!['x', '8', '6'],
        CpuArch::Arm => seq!['a', 'r', 'm'],
    }
}

pub open spec fn os_name(o: OsCPE) -> Seq<char> {
    match o {
        OsCPE::MAC14 => seq!['m', 'a', 'c', '1', '4'],
        OsCPE::UBT22 => seq!['u', 'b', 't', '2', '2'],
    }
}

pub open spec fn spc_name(s: RunSPC) -> Seq<char> {
    match s {
        RunSPC::Host => seq!['h', 'o', 's', 't'],
        RunSPC::K8S => seq!['k', '8', 's'],
    }
}

/// The text of a model: `arch-os-runtime`, as in `arm-mac14-host`.
pub open spec fn model_label(m: ModelSTD) -> Seq<char> {
    arch_name(m.arch) + seq!['-'] + os_name(m.os) + seq!['-'] + spc_name(m.spc)
}

impl ModelSTD {
    pub fn new(arch: CpuArch, os: OsCPE, spc: RunSPC) -> (r: Self)
        ensures
            r == (ModelSTD { arch, os, spc }),
    {
        ModelSTD { arch, os, spc }
    }

    /// The x86 / Ubuntu 22 / host model.
    pub fn x86_ubt22_host() -> (r: Self)
        ensures
            r == (ModelSTD { arch: CpuArch::X86, os: OsCPE::UBT22, spc: RunSPC::Host }),
    {
        ModelSTD { arch: CpuArch::X86, os: OsCPE::UBT22, spc: RunSPC::Host }
    }

    /// The text of the model, as in `arm-mac14-host`.
    pub fn label(&self) -> (r: String)
        ensures
            r@ == model_label(*self),
    {
        let a = match self.arch {
            CpuArch::X86 => chars_of("x86"),
            CpuArch::Arm => chars_of("arm"),
        };
        let o = match self.os {
            OsCPE::MAC14 => chars_of("mac14"),
            OsCPE::UBT22 => chars_of("ubt22"),
        };
        let s = match self.spc {
            RunSPC::Host => chars_of("host"),
            RunSPC::K8S => chars_of("k8s"),
        };
        proof {
            reveal_strlit("x86");
            reveal_strlit("arm");
            reveal_strlit("mac14");
            reveal_strlit("ubt22");
            reveal_strlit("host");
            reveal_strlit("k8s");
        }
        assert(a@ =~= arch_name(self.arch));
        assert(o@ =~= os_name(self.os));
        assert(s@ =~= spc_name(self.spc));
        let mut out = a;
        out.push('-');
        append_chars(&mut out, &o);
        out.push('-');
        append_chars(&mut out, &s);
        assert(out@ =~= model_label(*self));
        string_of(&out)
    }

    /// The model whose text is `s`, as in `arm-mac14-host`; `None` when no
    /// model has that text.
    pub fn from_label(s: &str) -> (r: Option<ModelSTD>)
        ensures
            r matches Some(m) ==> model_label(m) == s@,
            r is None ==> forall|m: ModelSTD| model_label(m) != s@,
    {
        let text = s.to_owned();
        let models = ModelSTD::all();
        let mut i: usize = 0;
        while i < models.len()
            invariant
                i <= models.len(),
                text@ == s@,
                models@ == all_models(),
                forall|j: int| 0 <= j < i ==> model_label(#[trigger] models@[j]) != s@,
            decreases models.len() - i,
        {
            let l = models[i].label();
            if l == text {
                return Some(models[i]);
            }
            i = i + 1;
        }
        proof {
            assert forall|m: ModelSTD| model_label(m) != s@ by {
                let j = lemma_model_listed(m);
                assert(models@[j] == m);
            }
        }
        None
    }

    /// Every model, in the order arch, os, runtime.
    pub fn all() -> (r: Vec<ModelSTD>)
        ensures
            r@ == all_models(),
    {
        let mut r: Vec<ModelSTD> = Vec::new();
        r.push(ModelSTD { arch: CpuArch::X86, os: OsCPE::MAC14, spc: RunSPC::Host });
        r.push(ModelSTD { arch: CpuArch::X86, os: OsCPE::MAC14, spc: RunSPC::K8S });
        r.push(ModelSTD { arch: CpuArch::X86, os: OsCPE::UBT22, spc: RunSPC::Host });
        r.push(ModelSTD { arch: CpuArch::X86, os: OsCPE::UBT22, spc: RunSPC::K8S });
        r.push(ModelSTD { arch: CpuArch::Arm, os: OsCPE::MAC14, spc: RunSPC::Host });
        r.push(ModelSTD { arch: CpuArch::Arm, os: OsCPE::MAC14, spc: RunSPC::K8S });
        r.push(ModelSTD { arch: CpuArch::Arm, os: OsCPE::UBT22, spc: RunSPC::Host });
        r.push(ModelSTD { arch: CpuArch::Arm, os: OsCPE::UBT22, spc: RunSPC::K8S });
        assert(r@ =~= all_models());
        r
    }
}

/// Every model, in the order arch, os, runtime.
pub open spec fn all_models() -> Seq<ModelSTD> {
    seq![
        ModelSTD { arch: CpuArch::X86, os: OsCPE::MAC14, spc: RunSPC::Host },
        ModelSTD { arch: CpuArch::X86, os: OsCPE::MAC14, spc: RunSPC::K8S },
        ModelSTD { arch: CpuArch::X86, os: OsCPE::UBT22, spc: RunSPC::Host },
        ModelSTD { arch: CpuArch::X86, os: OsCPE::UBT22, spc: RunSPC::K8S },
        ModelSTD { arch: CpuArch::Arm, os: OsCPE::MAC14, spc: RunSPC::Host },
        ModelSTD { arch: CpuArch::Arm, os: OsCPE::MAC14, spc: RunSPC::K8S },
        ModelSTD { arch: CpuArch::Arm, os: OsCPE::UBT22, spc: RunSPC::Host },
        ModelSTD { arch: CpuArch::Arm, os: OsCPE::UBT22, spc: RunSPC::K8S },
    ]
}

/// Every model is listed by `all_models`, at the returned position.
proof fn lemma_model_listed(m: ModelSTD) -> (j: int)
    ensures
        0 <= j < 8,
        all_models()[j] == m,
{
    let a: int = if m.arch == CpuArch::X86 { 0 } else { 4 };
    let o: int = if m.os == OsCPE::MAC14 { 0 } else { 2 };
    let k: int = if m.spc == RunSPC::Host { 0 } else { 1 };
    a + o + k
}

/// A system definition as text and values.
pub struct SysDefineView {
    pub name: Seq<char>,
    pub model: Option<ModelSTD>,
    pub kind: SysKind,
    pub vender: Seq<char>,
}

/// The definition of a system.
pub struct SysDefine {
    name: String,
    model: Option<ModelSTD>,
    kind: SysKind,
    vender: String,
}

impl View for SysDefine {
    type V = SysDefineView;

    closed spec fn view(&self) -> SysDefineView {
        SysDefineView { name: self.name@, model: self.model, kind: self.kind, vender: self.vender@ }
    }
}

impl SysDefine {
    /// A GXL system named `name` for the target `model`, with no vendor.
    pub fn new(name: &str, model: ModelSTD) -> (r: Self)
        ensures
            r@ == (SysDefineView {
                name: name@,
                model: Some(model),
                kind: SysKind::Gxl,
                vender: Seq::<char>::empty(),
            }),
    {
        SysDefine { name: name.to_owned(), vender: String::new(), model: Some(model), kind: SysKind::Gxl }
    }

    /// A system without a target model (a docker compose system has none).
    pub fn new_without_model(name: &str) -> (r: Self)
        ensures
            r@ == (SysDefineView {
                name: name@,
                model: None,
                kind: SysKind::Gxl,
                vender: Seq::<char>::empty(),
            }),
    {
        SysDefine { name: name.to_owned(), vender: String::new(), model: None, kind: SysKind::Gxl }
    }

    /// A definition read back from its stored fields.
    pub fn from_parts(name: String, model: Option<ModelSTD>, kind: SysKind, vender: String) -> (r: Self)
        ensures
            r@ == (SysDefineView { name: name@, model, kind, vender: vender@ }),
    {
        SysDefine { name, model, kind, vender }
    }

    /// The same definition with kind `kind`.
    pub fn with_kind(self, kind: SysKind) -> (r: Self)
        ensures
            r@ == (SysDefineView { kind, ..self@ }),
    {
        SysDefine { kind, ..self }
    }

    /// The same definition with vendor `vender`.
    pub fn with_vender(self, vender: String) -> (r: Self)
        ensures
            r@ == (SysDefineView { vender: vender@, ..self@ }),
    {
        SysDefine { vender, ..self }
    }

    /// The system is deployed with docker compose.
    pub fn is_docker_compose(&self) -> (r: bool)
        ensures
            r == (self@.kind == SysKind::DockerCompose),
    {
        self.kind == SysKind::DockerCompose
    }

    pub fn name(&self) -> (r: &String)
        ensures
            r@ == self@.name,
    {
        &self.name
    }

    pub fn model(&self) -> (r: Option<ModelSTD>)
        ensures
            r == self@.model,
    {
        self.model
    }

    pub fn kind(&self) -> (r: SysKind)
        ensures
            r == self@.kind,
    {
        self.kind
    }

    pub fn vender(&self) -> (r: &String)
        ensures
            r@ == self@.vender,
    {
        &self.vender
    }

    /// A copy with the same fields.
    pub fn duplicate(&self) -> (r: Self)
        ensures
            r@ == self@,
    {
        SysDefine { name: self.name.clone(), model: self.model, kind: self.kind, vender: self.vender.clone() }
    }

    /// Same fields, compared as text.
    pub fn same_as(&self, other: &SysDefine) -> (r: bool)
        ensures
            r == (self@ == other@),
    {
        let n = self.name == other.name;
        let v = self.vender == other.vender;
        let m = match self.model {
            Some(a) => match other.model {
                Some(b) => a == b,
                None => false,
            },
            None => other.model.is_none(),
        };
        n && v && m && self.kind == other.kind
    }
}

} // verus!
