//! The interface of an FMU: its ports and variables, in the normal form that code is generated
//! from.

use crate::sintaxis::{DataType, DataTypeView};
use crate::texto::{a_decimal, decimal, une};
use vstd::prelude::*;
use vstd::string::*;

verus! {

/// Where a port is found inside a bag of ports.
pub enum Access {
    /// The bag is the port.
    Whole,
    /// A position of a tuple: `.0`, `.1`, ...
    Tuple(usize),
    /// A position of an array: `[0]`, `[1]`, ...
    Array(usize),
    /// A field of a struct of ports.
    Field(String),
}

pub enum AccessView {
    Whole,
    Tuple(nat),
    Array(nat),
    Field(Seq<char>),
}

impl DeepView for Access {
    type V = AccessView;

    open spec fn deep_view(&self) -> AccessView {
        match self {
            Access::Whole => AccessView::Whole,
            Access::Tuple(i) => AccessView::Tuple(*i as nat),
            Access::Array(i) => AccessView::Array(*i as nat),
            Access::Field(f) => AccessView::Field(f@),
        }
    }
}

impl AccessView {
    /// The expression for the port inside the bag `base`.
    pub open spec fn of(self, base: Seq<char>) -> Seq<char> {
        match self {
            AccessView::Whole => base,
            AccessView::Tuple(i) => base + "."@ + decimal(i),
            AccessView::Array(i) => base + "["@ + decimal(i) + "usize]"@,
            AccessView::Field(f) => base + "."@ + f,
        }
    }
}

impl Access {
    /// Another value equal to this one.
    pub(crate) fn copia(&self) -> (r: Access)
        ensures
            r.deep_view() == self.deep_view(),
    {
        match self {
            Access::Whole => Access::Whole,
            Access::Tuple(i) => Access::Tuple(*i),
            Access::Array(i) => Access::Array(*i),
            Access::Field(f) => Access::Field(f.clone()),
        }
    }

    /// The expression for the port inside the bag `base`.
    pub fn of(&self, base: &str) -> (r: String)
        ensures
            r@ == self.deep_view().of(base@),
    {
        match self {
            Access::Whole => base.to_owned(),
            Access::Tuple(i) => une(base, ".").concat(a_decimal(*i).as_str()),
            Access::Array(i) => une(base, "[").concat(a_decimal(*i).as_str()).concat("usize]"),
            Access::Field(f) => une(base, ".").concat(f.as_str()),
        }
    }
}

/// A port of a bag: where it is found, what it carries, and the name that its variables go by.
pub struct PortInfo<'a> {
    pub access: Access,
    pub data: &'a DataType,
    pub base_name: String,
}

pub struct PortInfoView {
    pub access: AccessView,
    pub data: DataTypeView,
    pub base_name: Seq<char>,
}

impl<'a> DeepView for PortInfo<'a> {
    type V = PortInfoView;

    open spec fn deep_view(&self) -> PortInfoView {
        PortInfoView {
            access: self.access.deep_view(),
            data: self.data.deep_view(),
            base_name: self.base_name@,
        }
    }
}

/// Which kind of DEVS model is wrapped.
#[derive(Clone, Copy, PartialEq, Eq, Structural, Debug)]
pub enum SimKind {
    /// An atomic model, driven by a `Simulator`.
    Atomic,
    /// A coupled model, driven by a `Coordinator`.
    Coupled,
}

impl DeepView for SimKind {
    type V = SimKind;

    open spec fn deep_view(&self) -> SimKind {
        *self
    }
}

impl SimKind {
    /// The type of the simulator of a model of this kind.
    pub open spec fn sim_ty_spec(self, model: Seq<char>) -> Seq<char> {
        match self {
            SimKind::Atomic => "::xdevs_fmi::Simulator< "@ + model + " >"@,
            SimKind::Coupled => "::xdevs_fmi::Coordinator< "@ + model + " >"@,
        }
    }

    pub open spec fn ctor_spec(self) -> Seq<char> {
        match self {
            SimKind::Atomic => "atomic"@,
            SimKind::Coupled => "coupled"@,
        }
    }

    pub open spec fn trait_name_spec(self) -> Seq<char> {
        match self {
            SimKind::Atomic => "Atomic"@,
            SimKind::Coupled => "Coupled"@,
        }
    }

    pub open spec fn kind_ty_name_spec(self) -> Seq<char> {
        match self {
            SimKind::Atomic => "AtomicKind"@,
            SimKind::Coupled => "CoupledKind"@,
        }
    }

    /// The type of the simulator that wraps the model.
    pub fn sim_ty(&self, model: &str) -> (r: String)
        ensures
            r@ == self.sim_ty_spec(model@),
    {
        match self {
            SimKind::Atomic => une("::xdevs_fmi::Simulator< ", model).concat(" >"),
            SimKind::Coupled => une("::xdevs_fmi::Coordinator< ", model).concat(" >"),
        }
    }

    /// The constructor of `DevsFmu` for the model.
    pub fn ctor(&self) -> (r: &'static str)
        ensures
            r@ == self.ctor_spec(),
    {
        match self {
            SimKind::Atomic => "atomic",
            SimKind::Coupled => "coupled",
        }
    }

    /// The DEVS trait that the model has to implement.
    pub fn trait_name(&self) -> (r: &'static str)
        ensures
            r@ == self.trait_name_spec(),
    {
        match self {
            SimKind::Atomic => "Atomic",
            SimKind::Coupled => "Coupled",
        }
    }

    /// The `type Kind` that the model's `impl Component` has to declare.
    pub fn kind_ty_name(&self) -> (r: &'static str)
        ensures
            r@ == self.kind_ty_name_spec(),
    {
        match self {
            SimKind::Atomic => "AtomicKind",
            SimKind::Coupled => "CoupledKind",
        }
    }
}

/// An input port: the FMI variable of its data, where the data goes in the input bag, and the
/// type and start value of the variable.
pub struct InPort {
    pub field: String,
    pub access: Access,
    pub ty: String,
    pub start: String,
}

pub struct InPortView {
    pub field: Seq<char>,
    pub access: AccessView,
    pub ty: Seq<char>,
    pub start: Seq<char>,
}

impl DeepView for InPort {
    type V = InPortView;

    open spec fn deep_view(&self) -> InPortView {
        InPortView {
            field: self.field@,
            access: self.access.deep_view(),
            ty: self.ty@,
            start: self.start@,
        }
    }
}

/// An FMI output variable that a port feeds. Without a conversion it takes the event as it is.
pub struct OutVar {
    pub field: String,
    pub from: Option<String>,
    pub ty: String,
    pub start: String,
}

pub struct OutVarView {
    pub field: Seq<char>,
    pub from: Option<Seq<char>>,
    pub ty: Seq<char>,
    pub start: Seq<char>,
}

impl DeepView for OutVar {
    type V = OutVarView;

    open spec fn deep_view(&self) -> OutVarView {
        OutVarView {
            field: self.field@,
            from: self.from.deep_view(),
            ty: self.ty@,
            start: self.start@,
        }
    }
}

/// An output port: where it is read in the output bag, and the variables that it feeds.
pub struct OutPort {
    pub access: Access,
    pub vars: Vec<OutVar>,
}

pub struct OutPortView {
    pub access: AccessView,
    pub vars: Seq<OutVarView>,
}

impl DeepView for OutPort {
    type V = OutPortView;

    open spec fn deep_view(&self) -> OutPortView {
        OutPortView { access: self.access.deep_view(), vars: self.vars.deep_view() }
    }
}

/// An output variable that shows the time left until the next internal event.
pub struct SpecTaOut {
    pub field: String,
    pub ty: String,
    pub start: String,
}

pub struct SpecTaOutView {
    pub field: Seq<char>,
    pub ty: Seq<char>,
    pub start: Seq<char>,
}

impl DeepView for SpecTaOut {
    type V = SpecTaOutView;

    open spec fn deep_view(&self) -> SpecTaOutView {
        SpecTaOutView { field: self.field@, ty: self.ty@, start: self.start@ }
    }
}

/// The whole interface: the FMU's name and visibility, the model, its ports and variables.
pub struct Spec {
    pub name: String,
    pub vis: String,
    pub kind: SimKind,
    pub model_init: String,
    pub model_ty: String,
    pub in_ports: Vec<InPort>,
    pub out_ports: Vec<OutPort>,
    pub ta_outputs: Vec<SpecTaOut>,
}

pub struct SpecView {
    pub name: Seq<char>,
    pub vis: Seq<char>,
    pub kind: SimKind,
    pub model_init: Seq<char>,
    pub model_ty: Seq<char>,
    pub in_ports: Seq<InPortView>,
    pub out_ports: Seq<OutPortView>,
    pub ta_outputs: Seq<SpecTaOutView>,
}

impl DeepView for Spec {
    type V = SpecView;

    open spec fn deep_view(&self) -> SpecView {
        SpecView {
            name: self.name@,
            vis: self.vis@,
            kind: self.kind,
            model_init: self.model_init@,
            model_ty: self.model_ty@,
            in_ports: self.in_ports.deep_view(),
            out_ports: self.out_ports.deep_view(),
            ta_outputs: self.ta_outputs.deep_view(),
        }
    }
}

}
