//! The code of an FMU: the struct with its clocks and variables, its start values, and the
//! dispatch of each clock to a step of the simulation.

use crate::interfaz::{
    InPort, InPortView, OutPort, OutPortView, OutVar, OutVarView, Spec, SpecTaOut, SpecTaOutView,
    SpecView,
};
use crate::listas::agrega;
use crate::texto::{
    a_decimal, decimal, junta, lemma_junta_toma, pascal, pascal_spec, quita_raw, sin_raw, une,
};
use vstd::prelude::*;
use vstd::string::*;

verus! {

/// A field of the FMU's struct.
pub enum Campo {
    /// A clock, either the countdown one or a triggered one.
    Reloj { nombre: String, countdown: bool },
    /// A variable, either an input or an output, with the clocks that it is valid under.
    Variable { nombre: String, entrada: bool, ty: String, start: String, clocks: Vec<String> },
    /// The simulation: its type, the constructor of the wrapped model, and the model.
    Sim { ty: String, ctor: String, init: String },
}

pub enum CampoView {
    Reloj { nombre: Seq<char>, countdown: bool },
    Variable {
        nombre: Seq<char>,
        entrada: bool,
        ty: Seq<char>,
        start: Seq<char>,
        clocks: Seq<Seq<char>>,
    },
    Sim { ty: Seq<char>, ctor: Seq<char>, init: Seq<char> },
}

impl DeepView for Campo {
    type V = CampoView;

    open spec fn deep_view(&self) -> CampoView {
        match self {
            Campo::Reloj { nombre, countdown } => CampoView::Reloj {
                nombre: nombre@,
                countdown: *countdown,
            },
            Campo::Variable { nombre, entrada, ty, start, clocks } => CampoView::Variable {
                nombre: nombre@,
                entrada: *entrada,
                ty: ty@,
                start: start@,
                clocks: clocks.deep_view(),
            },
            Campo::Sim { ty, ctor, init } => CampoView::Sim { ty: ty@, ctor: ctor@, init: init@ },
        }
    }
}

/// The name of the triggered clock of an input.
pub open spec fn reloj_de(field: Seq<char>) -> Seq<char> {
    sin_raw(field) + "_ev"@
}

/// The name of the triggered clock of an input.
pub(crate) fn reloj(field: &str) -> (r: String)
    ensures
        r@ == reloj_de(field@),
{
    quita_raw(field).concat("_ev")
}

/// The field of an input's triggered clock.
pub open spec fn campo_reloj(p: InPortView) -> CampoView {
    CampoView::Reloj { nombre: reloj_de(p.field), countdown: false }
}

/// The field of an input's data, valid under its own clock.
pub open spec fn campo_entrada(p: InPortView) -> CampoView {
    CampoView::Variable {
        nombre: p.field,
        entrada: true,
        ty: p.ty,
        start: p.start,
        clocks: seq![reloj_de(p.field)],
    }
}

/// The field of an output variable, valid under the countdown clock.
pub open spec fn campo_salida(v: OutVarView) -> CampoView {
    CampoView::Variable {
        nombre: v.field,
        entrada: false,
        ty: v.ty,
        start: v.start,
        clocks: seq!["ta"@],
    }
}

/// The names of all the clocks: the countdown clock, then one for each input.
pub open spec fn relojes(in_ports: Seq<InPortView>) -> Seq<Seq<char>> {
    seq!["ta"@] + Seq::new(in_ports.len(), |i: int| reloj_de(in_ports[i].field))
}

/// The field of an output that shows the time left, valid under every clock.
pub open spec fn campo_ta(o: SpecTaOutView, in_ports: Seq<InPortView>) -> CampoView {
    CampoView::Variable {
        nombre: o.field,
        entrada: false,
        ty: o.ty,
        start: o.start,
        clocks: relojes(in_ports),
    }
}

/// The fields of the inputs: for each one its clock and then its data.
pub open spec fn campos_entrada(in_ports: Seq<InPortView>) -> Seq<CampoView> {
    Seq::new(
        2 * in_ports.len(),
        |i: int|
            if i % 2 == 0 {
                campo_reloj(in_ports[i / 2])
            } else {
                campo_entrada(in_ports[i / 2])
            },
    )
}

/// The fields of the output ports: the variables of each port, one port after the other.
pub open spec fn campos_salida(out_ports: Seq<OutPortView>) -> Seq<CampoView>
    decreases out_ports.len(),
{
    if out_ports.len() == 0 {
        Seq::empty()
    } else {
        let vars = out_ports.last().vars;
        campos_salida(out_ports.drop_last()) + Seq::new(vars.len(), |i: int| campo_salida(vars[i]))
    }
}

/// The fields of the outputs that show the time left.
pub open spec fn campos_ta(
    ta_outputs: Seq<SpecTaOutView>,
    in_ports: Seq<InPortView>,
) -> Seq<CampoView> {
    Seq::new(ta_outputs.len(), |i: int| campo_ta(ta_outputs[i], in_ports))
}

/// The field of the simulation.
pub open spec fn campo_sim(s: SpecView) -> CampoView {
    CampoView::Sim {
        ty: s.kind.sim_ty_spec(s.model_ty),
        ctor: s.kind.ctor_spec(),
        init: s.model_init,
    }
}

/// The fields of the FMU's struct, in order. Their order fixes the value references.
pub open spec fn campos(s: SpecView) -> Seq<CampoView> {
    seq![CampoView::Reloj { nombre: "ta"@, countdown: true }] + campos_entrada(s.in_ports)
        + campos_salida(s.out_ports) + campos_ta(s.ta_outputs, s.in_ports) + seq![campo_sim(s)]
}

/// The fields of the inputs.
fn lee_entradas(in_ports: &Vec<InPort>) -> (r: Vec<Campo>)
    ensures
        r.deep_view() == campos_entrada(in_ports.deep_view()),
{
    let mut v: Vec<Campo> = Vec::new();
    let ghost todo = campos_entrada(in_ports.deep_view());
    assert(v.deep_view() =~= todo.take(0));
    let mut i: usize = 0;
    while i < in_ports.len()
        invariant
            i <= in_ports.len(),
            todo == campos_entrada(in_ports.deep_view()),
            v.deep_view() == todo.take(2 * i),
        decreases in_ports.len() - i,
    {
        let p = &in_ports[i];
        let a = Campo::Reloj { nombre: reloj(p.field.as_str()), countdown: false };
        let mut clocks: Vec<String> = Vec::new();
        clocks.push(reloj(p.field.as_str()));
        let b = Campo::Variable {
            nombre: p.field.clone(),
            entrada: true,
            ty: p.ty.clone(),
            start: p.start.clone(),
            clocks,
        };
        proof {
            let pv = in_ports.deep_view()[i as int];
            assert(clocks.deep_view() =~= seq![reloj_de(pv.field)]);
            assert(a.deep_view() == campo_reloj(pv));
            assert(b.deep_view() == campo_entrada(pv));
            assert(todo[2 * i] == campo_reloj(pv));
            assert(todo[2 * i + 1] == campo_entrada(pv));
        }
        agrega(&mut v, a);
        agrega(&mut v, b);
        i += 1;
        assert(v.deep_view() =~= todo.take(2 * i));
    }
    assert(todo.take(todo.len() as int) =~= todo);
    v
}

/// The fields of the output ports.
fn lee_salidas(out_ports: &Vec<OutPort>) -> (r: Vec<Campo>)
    ensures
        r.deep_view() == campos_salida(out_ports.deep_view()),
{
    let mut v: Vec<Campo> = Vec::new();
    let ghost ports = out_ports.deep_view();
    assert(v.deep_view() =~= campos_salida(ports.take(0)));
    let mut i: usize = 0;
    while i < out_ports.len()
        invariant
            i <= out_ports.len(),
            ports == out_ports.deep_view(),
            v.deep_view() == campos_salida(ports.take(i as int)),
        decreases out_ports.len() - i,
    {
        let port = &out_ports[i];
        let ghost base = v.deep_view();
        let ghost vars = ports[i as int].vars;
        let ghost nuevos = Seq::new(vars.len(), |k: int| campo_salida(vars[k]));
        assert(v.deep_view() =~= base + nuevos.take(0));
        let mut j: usize = 0;
        while j < port.vars.len()
            invariant
                j <= port.vars.len(),
                vars == port.vars.deep_view(),
                nuevos == Seq::new(vars.len(), |k: int| campo_salida(vars[k])),
                v.deep_view() == base + nuevos.take(j as int),
            decreases port.vars.len() - j,
        {
            let x = &port.vars[j];
            let mut clocks: Vec<String> = Vec::new();
            clocks.push("ta".to_owned());
            let c = Campo::Variable {
                nombre: x.field.clone(),
                entrada: false,
                ty: x.ty.clone(),
                start: x.start.clone(),
                clocks,
            };
            proof {
                assert(clocks.deep_view() =~= seq!["ta"@]);
                assert(c.deep_view() == campo_salida(vars[j as int]));
            }
            agrega(&mut v, c);
            j += 1;
            assert(v.deep_view() =~= base + nuevos.take(j as int));
        }
        i += 1;
        proof {
            assert(nuevos.take(vars.len() as int) =~= nuevos);
            assert(ports.take(i as int).drop_last() =~= ports.take(i - 1));
            assert(ports.take(i as int).last() == ports[i - 1]);
        }
    }
    assert(ports.take(ports.len() as int) =~= ports);
    v
}

/// The names of all the clocks.
fn nombra_relojes(in_ports: &Vec<InPort>) -> (r: Vec<String>)
    ensures
        r.deep_view() == relojes(in_ports.deep_view()),
{
    let mut v: Vec<String> = Vec::new();
    let ghost todo = relojes(in_ports.deep_view());
    agrega(&mut v, "ta".to_owned());
    assert(v.deep_view() =~= todo.take(1));
    let mut i: usize = 0;
    while i < in_ports.len()
        invariant
            i <= in_ports.len(),
            todo == relojes(in_ports.deep_view()),
            v.deep_view() == todo.take(i + 1),
        decreases in_ports.len() - i,
    {
        agrega(&mut v, reloj(in_ports[i].field.as_str()));
        assert(todo[i + 1] == reloj_de(in_ports.deep_view()[i as int].field));
        i += 1;
        assert(v.deep_view() =~= todo.take(i + 1));
    }
    assert(todo.take(todo.len() as int) =~= todo);
    v
}

/// The fields of the outputs that show the time left.
fn lee_tiempos(ta_outputs: &Vec<SpecTaOut>, in_ports: &Vec<InPort>) -> (r: Vec<Campo>)
    ensures
        r.deep_view() == campos_ta(ta_outputs.deep_view(), in_ports.deep_view()),
{
    let mut v: Vec<Campo> = Vec::new();
    let ghost todo = campos_ta(ta_outputs.deep_view(), in_ports.deep_view());
    assert(v.deep_view() =~= todo.take(0));
    let mut i: usize = 0;
    while i < ta_outputs.len()
        invariant
            i <= ta_outputs.len(),
            todo == campos_ta(ta_outputs.deep_view(), in_ports.deep_view()),
            v.deep_view() == todo.take(i as int),
        decreases ta_outputs.len() - i,
    {
        let o = &ta_outputs[i];
        let c = Campo::Variable {
            nombre: o.field.clone(),
            entrada: false,
            ty: o.ty.clone(),
            start: o.start.clone(),
            clocks: nombra_relojes(in_ports),
        };
        assert(c.deep_view() == campo_ta(ta_outputs.deep_view()[i as int], in_ports.deep_view()));
        agrega(&mut v, c);
        i += 1;
        assert(v.deep_view() =~= todo.take(i as int));
    }
    assert(todo.take(todo.len() as int) =~= todo);
    v
}

/// Appends all the values of a list to another.
fn anade(v: &mut Vec<Campo>, otros: Vec<Campo>)
    ensures
        final(v).deep_view() == old(v).deep_view() + otros.deep_view(),
{
    let ghost antes = v.deep_view();
    let mut otros = otros;
    let ghost nuevos = otros.deep_view();
    v.append(&mut otros);
    assert(v.deep_view() =~= antes + nuevos);
}

/// The fields of the FMU's struct, in order.
pub fn campos_de(spec: &Spec) -> (r: Vec<Campo>)
    ensures
        r.deep_view() == campos(spec.deep_view()),
{
    let mut v: Vec<Campo> = Vec::new();
    let ta = Campo::Reloj { nombre: "ta".to_owned(), countdown: true };
    let sim = Campo::Sim {
        ty: spec.kind.sim_ty(spec.model_ty.as_str()),
        ctor: spec.kind.ctor().to_owned(),
        init: spec.model_init.clone(),
    };
    agrega(&mut v, ta);
    assert(v.deep_view() =~= seq![CampoView::Reloj { nombre: "ta"@, countdown: true }]);
    anade(&mut v, lee_entradas(&spec.in_ports));
    anade(&mut v, lee_salidas(&spec.out_ports));
    anade(&mut v, lee_tiempos(&spec.ta_outputs, &spec.in_ports));
    let ghost antes = v.deep_view();
    agrega(&mut v, sim);
    assert(v.deep_view() =~= antes + seq![campo_sim(spec.deep_view())]);
    v
}

/// Names separated by commas.
pub open spec fn con_comas(nombres: Seq<Seq<char>>) -> Seq<char> {
    junta(
        Seq::new(
            nombres.len(),
            |i: int|
                if i == 0 {
                    nombres[0]
                } else {
                    ", "@ + nombres[i]
                },
        ),
    )
}

/// Names separated by commas.
fn pon_comas(nombres: &Vec<String>) -> (r: String)
    ensures
        r@ == con_comas(nombres.deep_view()),
{
    let ghost ns = nombres.deep_view();
    let ghost piezas = Seq::new(
        ns.len(),
        |i: int|
            if i == 0 {
                ns[0]
            } else {
                ", "@ + ns[i]
            },
    );
    let mut out = String::new();
    assert(piezas.take(0) =~= Seq::empty());
    let mut i: usize = 0;
    while i < nombres.len()
        invariant
            i <= nombres.len(),
            ns == nombres.deep_view(),
            piezas == Seq::new(
                ns.len(),
                |i: int|
                    if i == 0 {
                        ns[0]
                    } else {
                        ", "@ + ns[i]
                    },
            ),
            out@ == junta(piezas.take(i as int)),
        decreases nombres.len() - i,
    {
        proof {
            lemma_junta_toma(piezas, i as int);
        }
        if i == 0 {
            out.append(nombres[i].as_str());
        } else {
            out.append(une(", ", nombres[i].as_str()).as_str());
        }
        i += 1;
    }
    assert(piezas.take(piezas.len() as int) =~= piezas);
    out
}

impl CampoView {
    /// The field's declaration in the struct.
    pub open spec fn declaracion(self) -> Seq<char> {
        match self {
            CampoView::Reloj { nombre, countdown } =>
                "#[variable(causality = Input, interval_variability = "@ + (if countdown {
                    "Countdown"@
                } else {
                    "Triggered"@
                }) + ")] "@ + nombre + ": ::fmi_export::fmi3::Clock,\n"@,
            CampoView::Variable { nombre, entrada, ty, start, clocks } =>
                "#[variable(causality = "@ + (if entrada {
                    "Input"@
                } else {
                    "Output"@
                }) + ", variability = Discrete, start = "@ + start + ", clocks = ["@
                    + con_comas(clocks) + "])] "@ + nombre + ": "@ + ty + ",\n"@,
            CampoView::Sim { ty, ctor, init } => "sim: ::xdevs_fmi::DevsFmu< "@ + ty + " >,\n"@,
        }
    }

    /// The field's initial value in the struct's `Default`.
    pub open spec fn inicial(self) -> Seq<char> {
        match self {
            CampoView::Reloj { nombre, countdown } =>
                nombre + ": ::core::default::Default::default(),\n"@,
            CampoView::Variable { nombre, entrada, ty, start, clocks } =>
                nombre + ": "@ + start + ",\n"@,
            CampoView::Sim { ty, ctor, init } =>
                "sim: ::xdevs_fmi::DevsFmu::"@ + ctor + "("@ + init + "),\n"@,
        }
    }
}

impl Campo {
    /// The field's declaration in the struct.
    pub fn declaracion(&self) -> (r: String)
        ensures
            r@ == self.deep_view().declaracion(),
    {
        match self {
            Campo::Reloj { nombre, countdown } => {
                let mut s = "#[variable(causality = Input, interval_variability = ".to_owned();
                s.append(if *countdown { "Countdown" } else { "Triggered" });
                s.append(")] ");
                s.append(nombre.as_str());
                s.append(": ::fmi_export::fmi3::Clock,\n");
                s
            },
            Campo::Variable { nombre, entrada, ty, start, clocks } => {
                let mut s = "#[variable(causality = ".to_owned();
                s.append(if *entrada { "Input" } else { "Output" });
                s.append(", variability = Discrete, start = ");
                s.append(start.as_str());
                s.append(", clocks = [");
                s.append(pon_comas(clocks).as_str());
                s.append("])] ");
                s.append(nombre.as_str());
                s.append(": ");
                s.append(ty.as_str());
                s.append(",\n");
                s
            },
            Campo::Sim { ty, ctor: _, init: _ } =>
                une("sim: ::xdevs_fmi::DevsFmu< ", ty.as_str()).concat(" >,\n"),
        }
    }

    /// The field's initial value in the struct's `Default`.
    pub fn inicial(&self) -> (r: String)
        ensures
            r@ == self.deep_view().inicial(),
    {
        match self {
            Campo::Reloj { nombre, countdown: _ } =>
                une(nombre.as_str(), ": ::core::default::Default::default(),\n"),
            Campo::Variable { nombre, entrada: _, ty: _, start, clocks: _ } =>
                une(nombre.as_str(), ": ").concat(start.as_str()).concat(",\n"),
            Campo::Sim { ty: _, ctor, init } =>
                une("sim: ::xdevs_fmi::DevsFmu::", ctor.as_str()).concat("(").concat(
                    init.as_str(),
                ).concat("),\n"),
        }
    }
}

/// The declarations of some fields.
pub open spec fn declaraciones(cs: Seq<CampoView>) -> Seq<char> {
    junta(Seq::new(cs.len(), |i: int| cs[i].declaracion()))
}

/// The initial values of some fields.
pub open spec fn iniciales(cs: Seq<CampoView>) -> Seq<char> {
    junta(Seq::new(cs.len(), |i: int| cs[i].inicial()))
}

/// The declarations of some fields.
fn declara(cs: &Vec<Campo>) -> (r: String)
    ensures
        r@ == declaraciones(cs.deep_view()),
{
    let ghost cv = cs.deep_view();
    let ghost piezas = Seq::new(cv.len(), |i: int| cv[i].declaracion());
    let mut out = String::new();
    assert(piezas.take(0) =~= Seq::empty());
    let mut i: usize = 0;
    while i < cs.len()
        invariant
            i <= cs.len(),
            cv == cs.deep_view(),
            piezas == Seq::new(cv.len(), |i: int| cv[i].declaracion()),
            out@ == junta(piezas.take(i as int)),
        decreases cs.len() - i,
    {
        proof {
            lemma_junta_toma(piezas, i as int);
        }
        out.append(cs[i].declaracion().as_str());
        i += 1;
    }
    assert(piezas.take(piezas.len() as int) =~= piezas);
    out
}

/// The initial values of some fields.
fn inicializa(cs: &Vec<Campo>) -> (r: String)
    ensures
        r@ == iniciales(cs.deep_view()),
{
    let ghost cv = cs.deep_view();
    let ghost piezas = Seq::new(cv.len(), |i: int| cv[i].inicial());
    let mut out = String::new();
    assert(piezas.take(0) =~= Seq::empty());
    let mut i: usize = 0;
    while i < cs.len()
        invariant
            i <= cs.len(),
            cv == cs.deep_view(),
            piezas == Seq::new(cv.len(), |i: int| cv[i].inicial()),
            out@ == junta(piezas.take(i as int)),
        decreases cs.len() - i,
    {
        proof {
            lemma_junta_toma(piezas, i as int);
        }
        out.append(cs[i].inicial().as_str());
        i += 1;
    }
    assert(piezas.take(piezas.len() as int) =~= piezas);
    out
}

/// The local that holds the event of output port `k` while a clock is served.
pub open spec fn evento_de(k: nat) -> Seq<char> {
    "__ev_"@ + decimal(k)
}

/// The declaration of the local of output port `k`.
pub open spec fn local_de(k: nat) -> Seq<char> {
    "let mut "@ + evento_de(k) + " = ::core::option::Option::None;\n"@
}

/// Reads the last event of output port `k` out of the output bag.
pub open spec fn lectura_de(k: nat, port: OutPortView) -> Seq<char> {
    evento_de(k) + " = "@ + port.access.of("__out"@) + ".get_values().last().copied();\n"@
}

/// Sets an output variable from an event.
pub open spec fn asignacion_de(v: OutVarView) -> Seq<char> {
    match v.from {
        Some(f) => "self."@ + v.field + " = ("@ + f + ")(__ev);\n"@,
        None => "self."@ + v.field + " = __ev;\n"@,
    }
}

/// Sets the variables of a port from an event.
pub open spec fn asignaciones(vars: Seq<OutVarView>) -> Seq<char> {
    junta(Seq::new(vars.len(), |i: int| asignacion_de(vars[i])))
}

/// Sets the variables of output port `k`, if it had an event.
pub open spec fn aplicacion_de(k: nat, port: OutPortView) -> Seq<char> {
    "if let ::core::option::Option::Some(__ev) = "@ + evento_de(k) + " {\n"@ + asignaciones(
        port.vars,
    ) + "}\n"@
}

pub open spec fn locales(out_ports: Seq<OutPortView>) -> Seq<char> {
    junta(Seq::new(out_ports.len(), |k: int| local_de(k as nat)))
}

pub open spec fn lecturas(out_ports: Seq<OutPortView>) -> Seq<char> {
    junta(Seq::new(out_ports.len(), |k: int| lectura_de(k as nat, out_ports[k])))
}

pub open spec fn aplicaciones(out_ports: Seq<OutPortView>) -> Seq<char> {
    junta(Seq::new(out_ports.len(), |k: int| aplicacion_de(k as nat, out_ports[k])))
}

/// A step of the simulation that fills the input bag with `fill` and carries the events of the
/// output bag, while it can be read, over to the output variables.
pub open spec fn captura(out_ports: Seq<OutPortView>, fill: Seq<char>) -> Seq<char> {
    if out_ports.len() == 0 {
        "self.sim.step(time, "@ + fill + ", |_out| {});\n"@
    } else {
        locales(out_ports) + "self.sim.step(time, "@ + fill + ", |__out| {\n"@ + lecturas(out_ports)
            + "});\n"@ + aplicaciones(out_ports)
    }
}

/// The arm of the countdown clock: a step without input.
pub open spec fn brazo_ta(vref: Seq<char>, out_ports: Seq<OutPortView>) -> Seq<char> {
    "::core::result::Result::Ok("@ + vref + "::Ta) => {\n"@ + captura(out_ports, "|_inp| {}"@)
        + "}\n"@
}

/// The arm of an input's clock: a step that puts the input's value in its port.
pub open spec fn brazo_entrada(
    vref: Seq<char>,
    p: InPortView,
    out_ports: Seq<OutPortView>,
) -> Seq<char> {
    "::core::result::Result::Ok("@ + vref + "::"@ + pascal_spec(reloj_de(p.field))
        + ") => {\nlet __v = self."@ + p.field + ";\n"@ + captura(
        out_ports,
        "|__inp| { let _ = "@ + p.access.of("__inp"@) + ".add_value(__v); }"@,
    ) + "}\n"@
}

/// The arms of the inputs' clocks.
pub open spec fn brazos(
    vref: Seq<char>,
    in_ports: Seq<InPortView>,
    out_ports: Seq<OutPortView>,
) -> Seq<char> {
    junta(Seq::new(in_ports.len(), |i: int| brazo_entrada(vref, in_ports[i], out_ports)))
}

/// Refreshes an output that shows the time left.
pub open spec fn refresco_de(o: SpecTaOutView) -> Seq<char> {
    "self."@ + o.field + " = self.sim.ta();\n"@
}

/// Refreshes the outputs that show the time left.
pub open spec fn refrescos(ta_outputs: Seq<SpecTaOutView>) -> Seq<char> {
    junta(Seq::new(ta_outputs.len(), |i: int| refresco_de(ta_outputs[i])))
}

/// The local that holds the event of output port `k`.
fn evento(k: usize) -> (r: String)
    ensures
        r@ == evento_de(k as nat),
{
    une("__ev_", a_decimal(k).as_str())
}

/// The declarations of the locals.
fn escribe_locales(out_ports: &Vec<OutPort>) -> (r: String)
    ensures
        r@ == locales(out_ports.deep_view()),
{
    let ghost ps = out_ports.deep_view();
    let ghost piezas = Seq::new(ps.len(), |k: int| local_de(k as nat));
    let mut out = String::new();
    assert(piezas.take(0) =~= Seq::empty());
    let mut i: usize = 0;
    while i < out_ports.len()
        invariant
            i <= out_ports.len(),
            ps == out_ports.deep_view(),
            piezas == Seq::new(ps.len(), |k: int| local_de(k as nat)),
            out@ == junta(piezas.take(i as int)),
        decreases out_ports.len() - i,
    {
        proof {
            lemma_junta_toma(piezas, i as int);
        }
        out.append(
            une("let mut ", evento(i).as_str()).concat(
                " = ::core::option::Option::None;\n",
            ).as_str(),
        );
        i += 1;
    }
    assert(piezas.take(piezas.len() as int) =~= piezas);
    out
}

/// The reads of the output bag.
fn escribe_lecturas(out_ports: &Vec<OutPort>) -> (r: String)
    ensures
        r@ == lecturas(out_ports.deep_view()),
{
    let ghost ps = out_ports.deep_view();
    let ghost piezas = Seq::new(ps.len(), |k: int| lectura_de(k as nat, ps[k]));
    let mut out = String::new();
    assert(piezas.take(0) =~= Seq::empty());
    let mut i: usize = 0;
    while i < out_ports.len()
        invariant
            i <= out_ports.len(),
            ps == out_ports.deep_view(),
            piezas == Seq::new(ps.len(), |k: int| lectura_de(k as nat, ps[k])),
            out@ == junta(piezas.take(i as int)),
        decreases out_ports.len() - i,
    {
        proof {
            lemma_junta_toma(piezas, i as int);
        }
        out.append(
            une(evento(i).as_str(), " = ").concat(out_ports[i].access.of("__out").as_str()).concat(
                ".get_values().last().copied();\n",
            ).as_str(),
        );
        i += 1;
    }
    assert(piezas.take(piezas.len() as int) =~= piezas);
    out
}

/// Sets an output variable from an event.
fn asigna(v: &OutVar) -> (r: String)
    ensures
        r@ == asignacion_de(v.deep_view()),
{
    match &v.from {
        Some(f) => une("self.", v.field.as_str()).concat(" = (").concat(f.as_str()).concat(
            ")(__ev);\n",
        ),
        None => une("self.", v.field.as_str()).concat(" = __ev;\n"),
    }
}

/// Sets the variables of a port from an event.
fn escribe_asignaciones(vars: &Vec<OutVar>) -> (r: String)
    ensures
        r@ == asignaciones(vars.deep_view()),
{
    let ghost vs = vars.deep_view();
    let ghost piezas = Seq::new(vs.len(), |k: int| asignacion_de(vs[k]));
    let mut out = String::new();
    assert(piezas.take(0) =~= Seq::empty());
    let mut i: usize = 0;
    while i < vars.len()
        invariant
            i <= vars.len(),
            vs == vars.deep_view(),
            piezas == Seq::new(vs.len(), |k: int| asignacion_de(vs[k])),
            out@ == junta(piezas.take(i as int)),
        decreases vars.len() - i,
    {
        proof {
            lemma_junta_toma(piezas, i as int);
        }
        out.append(asigna(&vars[i]).as_str());
        i += 1;
    }
    assert(piezas.take(piezas.len() as int) =~= piezas);
    out
}

/// Sets the variables of each port that had an event.
fn escribe_aplicaciones(out_ports: &Vec<OutPort>) -> (r: String)
    ensures
        r@ == aplicaciones(out_ports.deep_view()),
{
    let ghost ps = out_ports.deep_view();
    let ghost piezas = Seq::new(ps.len(), |k: int| aplicacion_de(k as nat, ps[k]));
    let mut out = String::new();
    assert(piezas.take(0) =~= Seq::empty());
    let mut i: usize = 0;
    while i < out_ports.len()
        invariant
            i <= out_ports.len(),
            ps == out_ports.deep_view(),
            piezas == Seq::new(ps.len(), |k: int| aplicacion_de(k as nat, ps[k])),
            out@ == junta(piezas.take(i as int)),
        decreases out_ports.len() - i,
    {
        proof {
            lemma_junta_toma(piezas, i as int);
        }
        out.append(
            une(
                "if let ::core::option::Option::Some(__ev) = ",
                evento(i).as_str(),
            ).concat(" {\n").concat(escribe_asignaciones(&out_ports[i].vars).as_str()).concat(
                "}\n",
            ).as_str(),
        );
        i += 1;
    }
    assert(piezas.take(piezas.len() as int) =~= piezas);
    out
}

/// A step of the simulation with its capture of the outputs.
fn escribe_captura(out_ports: &Vec<OutPort>, fill: &str) -> (r: String)
    ensures
        r@ == captura(out_ports.deep_view(), fill@),
{
    if out_ports.len() == 0 {
        une("self.sim.step(time, ", fill).concat(", |_out| {});\n")
    } else {
        let mut s = escribe_locales(out_ports);
        s.append("self.sim.step(time, ");
        s.append(fill);
        s.append(", |__out| {\n");
        s.append(escribe_lecturas(out_ports).as_str());
        s.append("});\n");
        s.append(escribe_aplicaciones(out_ports).as_str());
        s
    }
}

/// The arm of an input's clock.
fn escribe_brazo(vref: &str, p: &InPort, out_ports: &Vec<OutPort>) -> (r: String)
    ensures
        r@ == brazo_entrada(vref@, p.deep_view(), out_ports.deep_view()),
{
    let fill = une("|__inp| { let _ = ", p.access.of("__inp").as_str()).concat(
        ".add_value(__v); }",
    );
    let mut s = une("::core::result::Result::Ok(", vref);
    s.append("::");
    s.append(pascal(reloj(p.field.as_str()).as_str()).as_str());
    s.append(") => {\nlet __v = self.");
    s.append(p.field.as_str());
    s.append(";\n");
    s.append(escribe_captura(out_ports, fill.as_str()).as_str());
    s.append("}\n");
    s
}

/// The arms of the inputs' clocks.
fn escribe_brazos(vref: &str, in_ports: &Vec<InPort>, out_ports: &Vec<OutPort>) -> (r: String)
    ensures
        r@ == brazos(vref@, in_ports.deep_view(), out_ports.deep_view()),
{
    let ghost ins = in_ports.deep_view();
    let ghost outs = out_ports.deep_view();
    let ghost piezas = Seq::new(ins.len(), |k: int| brazo_entrada(vref@, ins[k], outs));
    let mut out = String::new();
    assert(piezas.take(0) =~= Seq::empty());
    let mut i: usize = 0;
    while i < in_ports.len()
        invariant
            i <= in_ports.len(),
            ins == in_ports.deep_view(),
            outs == out_ports.deep_view(),
            piezas == Seq::new(ins.len(), |k: int| brazo_entrada(vref@, ins[k], outs)),
            out@ == junta(piezas.take(i as int)),
        decreases in_ports.len() - i,
    {
        proof {
            lemma_junta_toma(piezas, i as int);
        }
        out.append(escribe_brazo(vref, &in_ports[i], out_ports).as_str());
        i += 1;
    }
    assert(piezas.take(piezas.len() as int) =~= piezas);
    out
}

/// Refreshes the outputs that show the time left.
fn escribe_refrescos(ta_outputs: &Vec<SpecTaOut>) -> (r: String)
    ensures
        r@ == refrescos(ta_outputs.deep_view()),
{
    let ghost tas = ta_outputs.deep_view();
    let ghost piezas = Seq::new(tas.len(), |k: int| refresco_de(tas[k]));
    let mut out = String::new();
    assert(piezas.take(0) =~= Seq::empty());
    let mut i: usize = 0;
    while i < ta_outputs.len()
        invariant
            i <= ta_outputs.len(),
            tas == ta_outputs.deep_view(),
            piezas == Seq::new(tas.len(), |k: int| refresco_de(tas[k])),
            out@ == junta(piezas.take(i as int)),
        decreases ta_outputs.len() - i,
    {
        proof {
            lemma_junta_toma(piezas, i as int);
        }
        out.append(
            une("self.", ta_outputs[i].field.as_str()).concat(" = self.sim.ta();\n").as_str(),
        );
        i += 1;
    }
    assert(piezas.take(piezas.len() as int) =~= piezas);
    out
}

/// The attributes of the FMU's struct.
pub const MODELO: &'static str = "#[derive(::fmi_export::FmuModel)]\n\
    #[model(\n\
    model_exchange = false,\n\
    co_simulation = false,\n\
    scheduled_execution = true,\n\
    user_model = false,\n\
    vr_enum = true\n\
    )]\n";

/// The head of the method that computes values.
pub const VALORES: &'static str = "fn calculate_values(\n\
    &mut self,\n\
    _context: &dyn ::fmi_export::fmi3::Context<Self>,\n\
    ) -> ::core::result::Result<::fmi::fmi3::Fmi3Res, ::fmi::fmi3::Fmi3Error> {\n";

/// The head of the method that serves a clock.
pub const ACTIVA: &'static str = "fn activate_partition(\n\
    &mut self,\n\
    _context: &mut dyn ::fmi_export::fmi3::Context<Self>,\n\
    clock_reference: ::fmi::fmi3::binding::fmi3ValueReference,\n\
    time: f64,\n\
    ) -> ::core::result::Result<::fmi::fmi3::Fmi3Res, ::fmi::fmi3::Fmi3Error> {\n\
    match ";

/// The arm of a reference that is no clock of the FMU.
pub const OTRO_RELOJ: &'static str =
    "_ => return ::core::result::Result::Err(::fmi::fmi3::Fmi3Error::Error),\n}\n";

/// The end of a method that went well.
pub const HECHO: &'static str = "::core::result::Result::Ok(::fmi::fmi3::Fmi3Res::OK)\n}\n\n";

/// The head of the method that gives the interval of a clock.
pub const INTERVALO: &'static str = "fn next_interval(\n\
    &self,\n\
    clock_reference: ::fmi::fmi3::binding::fmi3ValueReference,\n\
    ) -> ::core::option::Option<f64> {\n\
    match ";

/// The interval of the countdown clock, and of any other reference none.
pub const CUENTA: &'static str = "::Ta) => {\n\
    ::core::option::Option::Some(self.sim.ta())\n\
    }\n\
    _ => ::core::option::Option::None,\n\
    }\n}\n";

/// The enum of the FMU's value references.
pub open spec fn vref_de(name: Seq<char>) -> Seq<char> {
    sin_raw(name) + "ValueRef"@
}

/// The FMU's struct, with its clocks and variables.
pub open spec fn texto_struct(s: SpecView) -> Seq<char> {
    MODELO@ + s.vis + " struct "@ + s.name + " {\n"@ + declaraciones(campos(s)) + "}\n\n"@
}

/// The FMU's start values.
pub open spec fn texto_default(s: SpecView) -> Seq<char> {
    "impl ::core::default::Default for "@ + s.name + " {\nfn default() -> Self {\nSelf {\n"@
        + iniciales(campos(s)) + "}\n}\n}\n\n"@
}

/// The refresh of the variables that are computed.
pub open spec fn texto_valores(s: SpecView) -> Seq<char> {
    VALORES@ + refrescos(s.ta_outputs) + HECHO@
}

/// The dispatch of a clock to its step; any other value reference is an error.
pub open spec fn texto_activa(s: SpecView) -> Seq<char> {
    let vref = vref_de(s.name);
    ACTIVA@ + vref + "::try_from(clock_reference) {\n"@ + brazo_ta(vref, s.out_ports) + brazos(
        vref,
        s.in_ports,
        s.out_ports,
    ) + OTRO_RELOJ@ + HECHO@
}

/// The interval of each clock: only the countdown clock has one.
pub open spec fn texto_intervalo(s: SpecView) -> Seq<char> {
    let vref = vref_de(s.name);
    INTERVALO@ + vref + "::try_from(clock_reference) {\n::core::result::Result::Ok("@ + vref
        + CUENTA@
}

/// The FMU's behaviour.
pub open spec fn texto_usuario(s: SpecView) -> Seq<char> {
    "impl ::fmi_export::fmi3::UserModel for "@ + s.name
        + " {\ntype LoggingCategory = ::fmi_export::fmi3::DefaultLoggingCategory;\n\n"@
        + texto_valores(s) + texto_activa(s) + texto_intervalo(s) + "}\n\n"@
}

/// The export of the FMU.
pub open spec fn texto_export(s: SpecView) -> Seq<char> {
    "::fmi_export::export_fmu!("@ + s.name + ");\n"@
}

/// The code of an FMU.
pub open spec fn gen_spec(s: SpecView) -> Seq<char> {
    texto_struct(s) + texto_default(s) + texto_usuario(s) + texto_export(s)
}

/// The enum of the FMU's value references.
fn vref(name: &str) -> (r: String)
    ensures
        r@ == vref_de(name@),
{
    quita_raw(name).concat("ValueRef")
}

/// The FMU's struct, with its clocks and variables.
fn escribe_struct(spec: &Spec) -> (r: String)
    ensures
        r@ == texto_struct(spec.deep_view()),
{
    let mut s = MODELO.to_owned();
    s.append(spec.vis.as_str());
    s.append(" struct ");
    s.append(spec.name.as_str());
    s.append(" {\n");
    s.append(declara(&campos_de(spec)).as_str());
    s.append("}\n\n");
    s
}

/// The FMU's start values.
fn escribe_default(spec: &Spec) -> (r: String)
    ensures
        r@ == texto_default(spec.deep_view()),
{
    let mut s = "impl ::core::default::Default for ".to_owned();
    s.append(spec.name.as_str());
    s.append(" {\nfn default() -> Self {\nSelf {\n");
    s.append(inicializa(&campos_de(spec)).as_str());
    s.append("}\n}\n}\n\n");
    s
}

/// The refresh of the variables that are computed.
fn escribe_valores(spec: &Spec) -> (r: String)
    ensures
        r@ == texto_valores(spec.deep_view()),
{
    une(VALORES, escribe_refrescos(&spec.ta_outputs).as_str()).concat(HECHO)
}

/// The dispatch of a clock to its step; any other value reference is an error.
fn escribe_activa(spec: &Spec) -> (r: String)
    ensures
        r@ == texto_activa(spec.deep_view()),
{
    let vref = vref(spec.name.as_str());
    let mut s = une(ACTIVA, vref.as_str());
    s.append("::try_from(clock_reference) {\n");
    s.append(
        une("::core::result::Result::Ok(", vref.as_str()).concat("::Ta) => {\n").concat(
            escribe_captura(&spec.out_ports, "|_inp| {}").as_str(),
        ).concat("}\n").as_str(),
    );
    s.append(escribe_brazos(vref.as_str(), &spec.in_ports, &spec.out_ports).as_str());
    s.append(OTRO_RELOJ);
    s.append(HECHO);
    s
}

/// The interval of each clock: only the countdown clock has one.
fn escribe_intervalo(spec: &Spec) -> (r: String)
    ensures
        r@ == texto_intervalo(spec.deep_view()),
{
    let vref = vref(spec.name.as_str());
    let mut s = une(INTERVALO, vref.as_str());
    s.append("::try_from(clock_reference) {\n::core::result::Result::Ok(");
    s.append(vref.as_str());
    s.append(CUENTA);
    s
}

/// The FMU's behaviour.
fn escribe_usuario(spec: &Spec) -> (r: String)
    ensures
        r@ == texto_usuario(spec.deep_view()),
{
    let mut s = une("impl ::fmi_export::fmi3::UserModel for ", spec.name.as_str());
    s.append(" {\ntype LoggingCategory = ::fmi_export::fmi3::DefaultLoggingCategory;\n\n");
    s.append(escribe_valores(spec).as_str());
    s.append(escribe_activa(spec).as_str());
    s.append(escribe_intervalo(spec).as_str());
    s.append("}\n\n");
    s
}

/// Generates the code of an FMU: its struct, its start values, its `UserModel` and its export.
pub fn gen(spec: &Spec) -> (r: String)
    ensures
        r@ == gen_spec(spec.deep_view()),
{
    let mut s = escribe_struct(spec);
    s.append(escribe_default(spec).as_str());
    s.append(escribe_usuario(spec).as_str());
    s.append(une("::fmi_export::export_fmu!(", spec.name.as_str()).concat(");\n").as_str());
    s
}

}
