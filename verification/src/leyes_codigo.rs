//! What holds of the generated code: which line of it is there for which port and which variable
//! of the interface, and that there are no others.

use crate::genera::{
    aplicacion_de, asignacion_de, brazo_entrada, brazo_ta, brazos, campo_entrada, campo_reloj,
    campo_salida, campo_ta, campos, captura, con_comas, declaraciones, evento_de, gen_spec,
    iniciales, lectura_de, local_de, refresco_de, refrescos, relojes, ACTIVA, CUENTA, HECHO,
    INTERVALO, MODELO, OTRO_RELOJ, VALORES,
};
use crate::interfaz::{
    AccessView, InPortView, OutPortView, OutVarView, SimKind, SpecTaOutView, SpecView,
};
use crate::leyes::{lemma_decimal, lemma_junta_mas, ley_campos, n_salidas};
use crate::texto::{decimal, junta, pascal_spec, sin_raw};
use vstd::prelude::*;

verus! {

/// Whether a text stands somewhere in another.
pub open spec fn dentro(parte: Seq<char>, todo: Seq<char>) -> bool {
    exists|antes: Seq<char>, despues: Seq<char>| todo == #[trigger] (antes + parte + despues)
}

/// The number that some digits stand for.
pub open spec fn valor(cifras: Seq<char>) -> int
    decreases cifras.len(),
{
    if cifras.len() == 0 {
        0
    } else {
        10 * valor(cifras.drop_last()) + (cifras.last() as int - '0' as int)
    }
}

/// A number in decimal consists of digits, stands for that number, and has no zero in front.
pub proof fn ley_decimal(n: nat)
    ensures
        valor(decimal(n)) == n,
        decimal(n).len() > 0,
        forall|i: int| 0 <= i < decimal(n).len() ==> '0' <= #[trigger] decimal(n)[i] <= '9',
        n > 0 ==> decimal(n)[0] != '0',
    decreases n,
{
    reveal_with_fuel(valor, 2);
    if n < 10 {
        assert(decimal(n).drop_last() =~= Seq::empty());
    } else {
        ley_decimal(n / 10);
        assert(decimal(n).drop_last() =~= decimal(n / 10));
        assert(decimal(n)[0] == decimal(n / 10)[0]);
    }
}

/// The expression for a port inside a bag: the bag itself, or its element of that position, of
/// that index or of that name.
pub open spec fn lugar(base: Seq<char>, access: AccessView) -> Seq<char> {
    match access {
        AccessView::Whole => base,
        AccessView::Tuple(i) => base + "."@ + decimal(i),
        AccessView::Array(i) => base + "["@ + decimal(i) + "usize]"@,
        AccessView::Field(f) => base + "."@ + f,
    }
}

/// A port is reached in its own place of the bag, and two ports of one bag by different
/// expressions.
pub proof fn ley_acceso(base: Seq<char>, a: AccessView, b: AccessView)
    requires
        a != b,
        a is Tuple && b is Tuple || a is Array && b is Array || a is Field && b is Field,
    ensures
        a.of(base) == lugar(base, a),
        a.of(base) != b.of(base),
        a.of(base) != base,
{
    reveal_strlit(".");
    reveal_strlit("[");
    reveal_strlit("usize]");
    let x = a.of(base);
    let y = b.of(base);
    assert(x.len() > base.len());
    if x == y {
        let n = base.len() + 1;
        match (a, b) {
            (AccessView::Tuple(i), AccessView::Tuple(j)) => {
                assert(x.skip(n as int) =~= decimal(i));
                assert(y.skip(n as int) =~= decimal(j));
                lemma_decimal(i, j);
            },
            (AccessView::Array(i), AccessView::Array(j)) => {
                assert(x.subrange(n as int, x.len() - 6) =~= decimal(i));
                assert(y.subrange(n as int, y.len() - 6) =~= decimal(j));
                lemma_decimal(i, j);
            },
            (AccessView::Field(f), AccessView::Field(g)) => {
                assert(x.skip(n as int) =~= f);
                assert(y.skip(n as int) =~= g);
            },
            _ => {},
        }
    }
}

/// The line that carries an event over to a variable.
pub open spec fn traslado(v: OutVarView) -> Seq<char> {
    "self."@ + v.field + (match v.from {
        Some(f) => " = ("@ + f + ")(__ev);\n"@,
        None => " = __ev;\n"@,
    })
}

/// The lines that declare a local for each output port.
pub open spec fn lineas_locales(ls: Seq<Seq<char>>) -> Seq<Seq<char>> {
    Seq::new(ls.len(), |k: int| "let mut "@ + ls[k] + " = ::core::option::Option::None;\n"@)
}

/// The lines that read the last event of each output port, in its own place of the output bag,
/// into the port's local.
pub open spec fn lineas_lectura(ports: Seq<OutPortView>, ls: Seq<Seq<char>>) -> Seq<Seq<char>> {
    Seq::new(
        ls.len(),
        |k: int|
            ls[k] + " = "@ + lugar("__out"@, ports[k].access)
                + ".get_values().last().copied();\n"@,
    )
}

/// The blocks that, for each output port whose local holds an event, set the port's variables
/// from it.
pub open spec fn bloques(ports: Seq<OutPortView>, ls: Seq<Seq<char>>) -> Seq<Seq<char>> {
    Seq::new(
        ls.len(),
        |k: int|
            "if let ::core::option::Option::Some(__ev) = "@ + ls[k] + " {\n"@ + junta(
                Seq::new(ports[k].vars.len(), |v: int| traslado(ports[k].vars[v])),
            ) + "}\n"@,
    )
}

/// A step of the simulation that fills the input bag so, with what comes out of it carried over
/// to the output variables through those locals.
pub open spec fn paso(
    ports: Seq<OutPortView>,
    ls: Seq<Seq<char>>,
    fill: Seq<char>,
) -> Seq<char> {
    if ports.len() == 0 {
        "self.sim.step(time, "@ + fill + ", |_out| {});\n"@
    } else {
        junta(lineas_locales(ls)) + "self.sim.step(time, "@ + fill + ", |__out| {\n"@ + junta(
            lineas_lectura(ports, ls),
        ) + "});\n"@ + junta(bloques(ports, ls))
    }
}

/// The pieces that the code of an FMU is made of.
pub struct Codigo {
    /// The name of each output port's local.
    pub locales: Seq<Seq<char>>,
    /// The lines of the struct, one for each field.
    pub declaraciones: Seq<Seq<char>>,
    /// The lines of its `Default`, one for each field.
    pub iniciales: Seq<Seq<char>>,
    /// The lines that refresh the outputs that show the time left.
    pub refrescos: Seq<Seq<char>>,
    /// The arms that serve a clock, one for each clock.
    pub brazos: Seq<Seq<char>>,
}

/// Of the locals: one for each output port, all different, and different from the other names in
/// their scope.
pub open spec fn locales_buenos(ports: Seq<OutPortView>, ls: Seq<Seq<char>>) -> bool {
    &&& ls.len() == ports.len()
    &&& ls.no_duplicates()
    &&& forall|k: int|
        0 <= k < ls.len() ==> {
            &&& #[trigger] ls[k] != "__ev"@
            &&& ls[k] != "__v"@
            &&& ls[k] != "__out"@
            &&& ls[k] != "__inp"@
        }
}

/// The lines of a clock: its declaration and its initial value.
pub open spec fn es_linea_de_reloj(
    declaracion: Seq<char>,
    inicial: Seq<char>,
    nombre: Seq<char>,
    clase: Seq<char>,
) -> bool {
    &&& declaracion == "#[variable(causality = Input, interval_variability = "@ + clase + ")] "@
        + nombre + ": ::fmi_export::fmi3::Clock,\n"@
    &&& inicial == nombre + ": ::core::default::Default::default(),\n"@
}

/// The lines of a variable: its declaration, and its initial value, which is the start value that
/// it is declared with.
pub open spec fn es_linea_de_variable(
    declaracion: Seq<char>,
    inicial: Seq<char>,
    causalidad: Seq<char>,
    nombre: Seq<char>,
    ty: Seq<char>,
    start: Seq<char>,
    clocks: Seq<char>,
) -> bool {
    &&& declaracion == "#[variable(causality = "@ + causalidad
        + ", variability = Discrete, start = "@ + start + ", clocks = ["@ + clocks + "])] "@
        + nombre + ": "@ + ty + ",\n"@
    &&& inicial == nombre + ": "@ + start + ",\n"@
}

/// The name of the clock of an input.
pub open spec fn reloj_propio(p: InPortView) -> Seq<char> {
    sin_raw(p.field) + "_ev"@
}

/// The names of all the clocks, with commas between them.
pub open spec fn todos_los_relojes(in_ports: Seq<InPortView>) -> Seq<char> {
    "ta"@ + junta(Seq::new(in_ports.len(), |i: int| ", "@ + reloj_propio(in_ports[i])))
}

/// Of the lines of the struct and of its `Default`: there is one of each for each field, in the
/// same order, and they are those of the interface.
pub open spec fn lineas_buenas(s: SpecView, d: Seq<Seq<char>>, n: Seq<Seq<char>>) -> bool {
    let a = 1 + 2 * s.in_ports.len();
    let b = a + n_salidas(s.out_ports);
    let c = b + s.ta_outputs.len();
    &&& d.len() == c + 1
    &&& n.len() == c + 1
    &&& es_linea_de_reloj(d[0], n[0], "ta"@, "Countdown"@)
    &&& forall|i: int|
        #![trigger s.in_ports[i]]
        0 <= i < s.in_ports.len() ==> {
            let p = s.in_ports[i];
            &&& es_linea_de_reloj(d[1 + 2 * i], n[1 + 2 * i], reloj_propio(p), "Triggered"@)
            &&& es_linea_de_variable(
                d[2 + 2 * i],
                n[2 + 2 * i],
                "Input"@,
                p.field,
                p.ty,
                p.start,
                reloj_propio(p),
            )
        }
    &&& forall|p: int, v: int|
        #![trigger s.out_ports[p].vars[v]]
        0 <= p < s.out_ports.len() && 0 <= v < s.out_ports[p].vars.len() ==> {
            let k = a + n_salidas(s.out_ports.take(p)) + v;
            let x = s.out_ports[p].vars[v];
            es_linea_de_variable(d[k], n[k], "Output"@, x.field, x.ty, x.start, "ta"@)
        }
    &&& forall|i: int|
        #![trigger s.ta_outputs[i]]
        0 <= i < s.ta_outputs.len() ==> {
            let o = s.ta_outputs[i];
            es_linea_de_variable(
                d[b + i],
                n[b + i],
                "Output"@,
                o.field,
                o.ty,
                o.start,
                todos_los_relojes(s.in_ports),
            )
        }
    &&& d[c as int] == "sim: ::xdevs_fmi::DevsFmu< "@ + (match s.kind {
        SimKind::Atomic => "::xdevs_fmi::Simulator< "@ + s.model_ty + " >"@,
        SimKind::Coupled => "::xdevs_fmi::Coordinator< "@ + s.model_ty + " >"@,
    }) + " >,\n"@
    &&& n[c as int] == "sim: ::xdevs_fmi::DevsFmu::"@ + (match s.kind {
        SimKind::Atomic => "atomic"@,
        SimKind::Coupled => "coupled"@,
    }) + "("@ + s.model_init + "),\n"@
}

/// Of the arms: that of the countdown clock steps the simulation without input, and that of each
/// input's clock steps it with the input's value put in the input's own place of the input bag.
pub open spec fn brazos_buenos(
    s: SpecView,
    ls: Seq<Seq<char>>,
    brazos: Seq<Seq<char>>,
) -> bool {
    let vref = sin_raw(s.name) + "ValueRef"@;
    &&& brazos.len() == 1 + s.in_ports.len()
    &&& brazos[0] == "::core::result::Result::Ok("@ + vref + "::Ta) => {\n"@ + paso(
        s.out_ports,
        ls,
        "|_inp| {}"@,
    ) + "}\n"@
    &&& forall|i: int|
        #![trigger s.in_ports[i]]
        0 <= i < s.in_ports.len() ==> {
            let p = s.in_ports[i];
            brazos[1 + i] == "::core::result::Result::Ok("@ + vref + "::"@ + pascal_spec(
                reloj_propio(p),
            ) + ") => {\nlet __v = self."@ + p.field + ";\n"@ + paso(
                s.out_ports,
                ls,
                "|__inp| { let _ = "@ + lugar("__inp"@, p.access) + ".add_value(__v); }"@,
            ) + "}\n"@
        }
}

/// The whole code, around its pieces.
pub open spec fn armazon(s: SpecView, c: Codigo) -> Seq<char> {
    let vref = sin_raw(s.name) + "ValueRef"@;
    let estructura = "#[derive(::fmi_export::FmuModel)]\n\
        #[model(\n\
        model_exchange = false,\n\
        co_simulation = false,\n\
        scheduled_execution = true,\n\
        user_model = false,\n\
        vr_enum = true\n\
        )]\n"@ + s.vis + " struct "@ + s.name + " {\n"@ + junta(c.declaraciones) + "}\n\n"@;
    let inicio = "impl ::core::default::Default for "@ + s.name
        + " {\nfn default() -> Self {\nSelf {\n"@ + junta(c.iniciales) + "}\n}\n}\n\n"@;
    let valores = "fn calculate_values(\n\
        &mut self,\n\
        _context: &dyn ::fmi_export::fmi3::Context<Self>,\n\
        ) -> ::core::result::Result<::fmi::fmi3::Fmi3Res, ::fmi::fmi3::Fmi3Error> {\n"@ + junta(
        c.refrescos,
    ) + "::core::result::Result::Ok(::fmi::fmi3::Fmi3Res::OK)\n}\n\n"@;
    let activa = "fn activate_partition(\n\
        &mut self,\n\
        _context: &mut dyn ::fmi_export::fmi3::Context<Self>,\n\
        clock_reference: ::fmi::fmi3::binding::fmi3ValueReference,\n\
        time: f64,\n\
        ) -> ::core::result::Result<::fmi::fmi3::Fmi3Res, ::fmi::fmi3::Fmi3Error> {\n\
        match "@ + vref + "::try_from(clock_reference) {\n"@ + junta(c.brazos)
        + "_ => return ::core::result::Result::Err(::fmi::fmi3::Fmi3Error::Error),\n}\n"@
        + "::core::result::Result::Ok(::fmi::fmi3::Fmi3Res::OK)\n}\n\n"@;
    let intervalo = "fn next_interval(\n\
        &self,\n\
        clock_reference: ::fmi::fmi3::binding::fmi3ValueReference,\n\
        ) -> ::core::option::Option<f64> {\n\
        match "@ + vref + "::try_from(clock_reference) {\n::core::result::Result::Ok("@ + vref
        + "::Ta) => {\n\
        ::core::option::Option::Some(self.sim.ta())\n\
        }\n\
        _ => ::core::option::Option::None,\n\
        }\n}\n"@;
    let usuario = "impl ::fmi_export::fmi3::UserModel for "@ + s.name
        + " {\ntype LoggingCategory = ::fmi_export::fmi3::DefaultLoggingCategory;\n\n"@ + valores
        + activa + intervalo + "}\n\n"@;
    estructura + inicio + usuario + ("::fmi_export::export_fmu!("@ + s.name + ");\n"@)
}

/// The name of a port's local.
proof fn lemma_locales(ports: Seq<OutPortView>) -> (ls: Seq<Seq<char>>)
    ensures
        ls == Seq::new(ports.len(), |k: int| evento_de(k as nat)),
        locales_buenos(ports, ls),
{
    let ls = Seq::new(ports.len(), |k: int| evento_de(k as nat));
    reveal_strlit("__ev_");
    reveal_strlit("__ev");
    reveal_strlit("__v");
    reveal_strlit("__out");
    reveal_strlit("__inp");
    assert forall|k: int| 0 <= k < ls.len() implies {
        &&& #[trigger] ls[k] != "__ev"@
        &&& ls[k] != "__v"@
        &&& ls[k] != "__out"@
        &&& ls[k] != "__inp"@
    } by {
        ley_decimal(k as nat);
        assert(ls[k].len() >= 6);
    }
    assert forall|i: int, j: int| 0 <= i < ls.len() && 0 <= j < ls.len() && i != j implies ls[i]
        != ls[j] by {
        if ls[i] == ls[j] {
            assert(evento_de(i as nat).skip(5) =~= decimal(i as nat));
            assert(evento_de(j as nat).skip(5) =~= decimal(j as nat));
            lemma_decimal(i as nat, j as nat);
        }
    }
    ls
}

/// A step written out.
proof fn lemma_paso(ports: Seq<OutPortView>, ls: Seq<Seq<char>>, fill: Seq<char>)
    requires
        ls == Seq::new(ports.len(), |k: int| evento_de(k as nat)),
    ensures
        captura(ports, fill) == paso(ports, ls, fill),
{
    assert(Seq::new(ports.len(), |k: int| local_de(k as nat)) =~= lineas_locales(ls));
    assert(Seq::new(ports.len(), |k: int| lectura_de(k as nat, ports[k])) =~= lineas_lectura(
        ports,
        ls,
    ));
    let a = Seq::new(ports.len(), |k: int| aplicacion_de(k as nat, ports[k]));
    let b = bloques(ports, ls);
    assert forall|k: int| 0 <= k < ports.len() implies a[k] == b[k] by {
        let vars = ports[k].vars;
        let x = Seq::new(vars.len(), |i: int| asignacion_de(vars[i]));
        let y = Seq::new(vars.len(), |v: int| traslado(vars[v]));
        assert forall|v: int| 0 <= v < vars.len() implies x[v] == y[v] by {
            assert(asignacion_de(vars[v]) =~= traslado(vars[v]));
        }
        assert(x =~= y);
        assert(y =~= Seq::new(ports[k].vars.len(), |v: int| traslado(ports[k].vars[v])));
    }
    assert(a =~= b);
}

/// The clocks of a variable that shows the time left, written out.
proof fn lemma_relojes(in_ports: Seq<InPortView>)
    ensures
        con_comas(relojes(in_ports)) == todos_los_relojes(in_ports),
{
    let rs = relojes(in_ports);
    let x = Seq::new(
        rs.len(),
        |i: int|
            if i == 0 {
                rs[0]
            } else {
                ", "@ + rs[i]
            },
    );
    let y = Seq::new(in_ports.len(), |i: int| ", "@ + reloj_propio(in_ports[i]));
    assert(x =~= seq!["ta"@] + y);
    lemma_junta_mas(seq!["ta"@], y);
    lemma_junta_uno("ta"@);
}

/// One text alone.
proof fn lemma_junta_uno(x: Seq<char>)
    ensures
        junta(seq![x]) == x,
        con_comas(seq![x]) == x,
{
    reveal_with_fuel(junta, 2);
    assert(seq![x].drop_last() =~= Seq::empty());
    assert(junta(seq![x]) =~= x);
    let u = seq![x];
    assert(Seq::new(
        u.len(),
        |i: int|
            if i == 0 {
                u[0]
            } else {
                ", "@ + u[i]
            },
    ) =~= u);
}

/// The lines of an input.
proof fn lemma_linea_entrada(p: InPortView)
    ensures
        es_linea_de_reloj(
            campo_reloj(p).declaracion(),
            campo_reloj(p).inicial(),
            reloj_propio(p),
            "Triggered"@,
        ),
        es_linea_de_variable(
            campo_entrada(p).declaracion(),
            campo_entrada(p).inicial(),
            "Input"@,
            p.field,
            p.ty,
            p.start,
            reloj_propio(p),
        ),
{
    lemma_junta_uno(reloj_propio(p));
}

/// The lines of an output variable.
proof fn lemma_linea_salida(x: OutVarView)
    ensures
        es_linea_de_variable(
            campo_salida(x).declaracion(),
            campo_salida(x).inicial(),
            "Output"@,
            x.field,
            x.ty,
            x.start,
            "ta"@,
        ),
{
    lemma_junta_uno("ta"@);
}

/// The lines of an output that shows the time left.
proof fn lemma_linea_ta(o: SpecTaOutView, in_ports: Seq<InPortView>)
    ensures
        es_linea_de_variable(
            campo_ta(o, in_ports).declaracion(),
            campo_ta(o, in_ports).inicial(),
            "Output"@,
            o.field,
            o.ty,
            o.start,
            todos_los_relojes(in_ports),
        ),
{
    lemma_relojes(in_ports);
}

/// The lines of the struct and of its `Default`, written out.
proof fn lemma_lineas(s: SpecView, d: Seq<Seq<char>>, n: Seq<Seq<char>>)
    requires
        d == Seq::new(campos(s).len(), |i: int| campos(s)[i].declaracion()),
        n == Seq::new(campos(s).len(), |i: int| campos(s)[i].inicial()),
    ensures
        lineas_buenas(s, d, n),
{
    let cs = campos(s);
    ley_campos(s);
    let a = 1 + 2 * s.in_ports.len();
    let b = a + n_salidas(s.out_ports);
    let c = (b + s.ta_outputs.len()) as int;
    assert(cs.last() == cs[c]);
    assert(forall|i: int| 0 <= i < cs.len() ==> #[trigger] d[i] == cs[i].declaracion());
    assert(forall|i: int| 0 <= i < cs.len() ==> #[trigger] n[i] == cs[i].inicial());
    assert forall|i: int| #![trigger s.in_ports[i]] 0 <= i < s.in_ports.len() implies {
        let p = s.in_ports[i];
        &&& es_linea_de_reloj(d[1 + 2 * i], n[1 + 2 * i], reloj_propio(p), "Triggered"@)
        &&& es_linea_de_variable(
            d[2 + 2 * i],
            n[2 + 2 * i],
            "Input"@,
            p.field,
            p.ty,
            p.start,
            reloj_propio(p),
        )
    } by {
        let p = s.in_ports[i];
        assert(cs[1 + 2 * i] == campo_reloj(p));
        assert(cs[2 + 2 * i] == campo_entrada(p));
        lemma_linea_entrada(p);
    }
    assert forall|p: int, v: int|
        #![trigger s.out_ports[p].vars[v]]
        0 <= p < s.out_ports.len() && 0 <= v < s.out_ports[p].vars.len() implies {
        let k = a + n_salidas(s.out_ports.take(p)) + v;
        let x = s.out_ports[p].vars[v];
        es_linea_de_variable(d[k], n[k], "Output"@, x.field, x.ty, x.start, "ta"@)
    } by {
        let k = a + n_salidas(s.out_ports.take(p)) + v;
        let x = s.out_ports[p].vars[v];
        lemma_lugar_de_salida(s.out_ports, p, v);
        assert(cs[k] == campo_salida(x));
        lemma_linea_salida(x);
    }
    assert forall|i: int| #![trigger s.ta_outputs[i]] 0 <= i < s.ta_outputs.len() implies {
        let o = s.ta_outputs[i];
        es_linea_de_variable(
            d[b + i],
            n[b + i],
            "Output"@,
            o.field,
            o.ty,
            o.start,
            todos_los_relojes(s.in_ports),
        )
    } by {
        assert(cs[b + i] == campo_ta(s.ta_outputs[i], s.in_ports));
        lemma_linea_ta(s.ta_outputs[i], s.in_ports);
    }
}

/// An output variable comes before the end of the output variables.
proof fn lemma_lugar_de_salida(ports: Seq<OutPortView>, p: int, v: int)
    requires
        0 <= p < ports.len(),
        0 <= v < ports[p].vars.len(),
    ensures
        n_salidas(ports.take(p)) + v < n_salidas(ports),
    decreases ports.len(),
{
    let resto = ports.drop_last();
    if p < resto.len() {
        assert(resto.take(p) =~= ports.take(p));
        lemma_lugar_de_salida(resto, p, v);
    } else {
        assert(ports.take(p) =~= resto);
    }
}

/// The code of an FMU, whole: a struct with a clock or a variable in each place and a `Default`
/// that starts each variable at the value that it is declared with; a refresh of each output that
/// shows the time left; an arm for each clock, which carries the events of each output port to
/// the port's own variables through a local of the port's own, and fills the place of the input
/// whose clock it is; an error for any other reference; an interval for the countdown clock
/// alone; and nothing else.
pub proof fn ley_codigo(s: SpecView) -> (c: Codigo)
    ensures
        gen_spec(s) == armazon(s, c),
        locales_buenos(s.out_ports, c.locales),
        lineas_buenas(s, c.declaraciones, c.iniciales),
        brazos_buenos(s, c.locales, c.brazos),
        c.refrescos.len() == s.ta_outputs.len(),
        forall|i: int|
            0 <= i < c.refrescos.len() ==> #[trigger] c.refrescos[i] == "self."@
                + s.ta_outputs[i].field + " = self.sim.ta();\n"@,
{
    let ls = lemma_locales(s.out_ports);
    let d = Seq::new(campos(s).len(), |i: int| campos(s)[i].declaracion());
    let n = Seq::new(campos(s).len(), |i: int| campos(s)[i].inicial());
    lemma_lineas(s, d, n);
    let refrescos = Seq::new(s.ta_outputs.len(), |i: int| refresco_de(s.ta_outputs[i]));
    let vref = sin_raw(s.name) + "ValueRef"@;
    let arms = Seq::new(
        s.in_ports.len(),
        |i: int| brazo_entrada(vref, s.in_ports[i], s.out_ports),
    );
    let ta = brazo_ta(vref, s.out_ports);
    lemma_paso(s.out_ports, ls, "|_inp| {}"@);
    assert forall|i: int| #![trigger s.in_ports[i]] 0 <= i < s.in_ports.len() implies {
        let p = s.in_ports[i];
        arms[i] == "::core::result::Result::Ok("@ + vref + "::"@ + pascal_spec(reloj_propio(p))
            + ") => {\nlet __v = self."@ + p.field + ";\n"@ + paso(
            s.out_ports,
            ls,
            "|__inp| { let _ = "@ + lugar("__inp"@, p.access) + ".add_value(__v); }"@,
        ) + "}\n"@
    } by {
        let p = s.in_ports[i];
        lemma_paso(
            s.out_ports,
            ls,
            "|__inp| { let _ = "@ + lugar("__inp"@, p.access) + ".add_value(__v); }"@,
        );
    }
    let todos = seq![ta] + arms;
    lemma_junta_mas(seq![ta], arms);
    lemma_junta_uno(ta);
    let c = Codigo { locales: ls, declaraciones: d, iniciales: n, refrescos, brazos: todos };
    assert forall|i: int| #![trigger s.in_ports[i]] 0 <= i < s.in_ports.len() implies todos[1 + i]
        == arms[i] by {}
    lemma_armazon(s, c);
    c
}

/// The pieces put together.
proof fn lemma_armazon(s: SpecView, c: Codigo)
    requires
        junta(c.declaraciones) == declaraciones(campos(s)),
        junta(c.iniciales) == iniciales(campos(s)),
        junta(c.refrescos) == refrescos(s.ta_outputs),
        junta(c.brazos) == brazo_ta(sin_raw(s.name) + "ValueRef"@, s.out_ports) + brazos(
            sin_raw(s.name) + "ValueRef"@,
            s.in_ports,
            s.out_ports,
        ),
    ensures
        gen_spec(s) == armazon(s, c),
{
    let vref = sin_raw(s.name) + "ValueRef"@;
    let a = ACTIVA@ + vref + "::try_from(clock_reference) {\n"@;
    let b = brazo_ta(vref, s.out_ports);
    let d = brazos(vref, s.in_ports, s.out_ports);
    assert(a + b + d =~= a + (b + d));
}

/// What stands in a text stands in a longer one.
proof fn lemma_dentro_mas(x: Seq<char>, y: Seq<char>, a: Seq<char>, b: Seq<char>)
    requires
        dentro(x, y),
    ensures
        dentro(x, a + y + b),
{
    let (c, d) = choose|c: Seq<char>, d: Seq<char>| y == #[trigger] (c + x + d);
    assert(a + y + b =~= (a + c) + x + (d + b));
}

/// A piece stands in the concatenation.
proof fn lemma_dentro_junta(piezas: Seq<Seq<char>>, i: int)
    requires
        0 <= i < piezas.len(),
    ensures
        dentro(piezas[i], junta(piezas)),
    decreases piezas.len(),
{
    let resto = piezas.drop_last();
    let e = Seq::<char>::empty();
    if i < resto.len() {
        lemma_dentro_junta(resto, i);
        lemma_dentro_mas(piezas[i], junta(resto), e, piezas.last());
        assert(e + junta(resto) + piezas.last() =~= junta(piezas));
    } else {
        assert(junta(piezas) =~= junta(resto) + piezas[i] + e);
    }
}

/// The pieces of the code stand in it.
proof fn lemma_dentro_codigo(s: SpecView, c: Codigo)
    ensures
        dentro(junta(c.declaraciones), armazon(s, c)),
        dentro(junta(c.iniciales), armazon(s, c)),
        dentro(junta(c.brazos), armazon(s, c)),
{
    let vref = sin_raw(s.name) + "ValueRef"@;
    let e = Seq::<char>::empty();
    let t = armazon(s, c);
    let d = junta(c.declaraciones);
    let n = junta(c.iniciales);
    let r = junta(c.brazos);
    let a0 = MODELO@ + s.vis + " struct "@ + s.name + " {\n"@;
    let b0 = "impl ::core::default::Default for "@ + s.name
        + " {\nfn default() -> Self {\nSelf {\n"@;
    let estructura = a0 + d + "}\n\n"@;
    let inicio = b0 + n + "}\n}\n}\n\n"@;
    let valores = VALORES@ + junta(c.refrescos) + HECHO@;
    let c0 = ACTIVA@ + vref + "::try_from(clock_reference) {\n"@;
    let activa = c0 + r + OTRO_RELOJ@ + HECHO@;
    let intervalo = INTERVALO@ + vref
        + "::try_from(clock_reference) {\n::core::result::Result::Ok("@ + vref
        + CUENTA@;
    let u0 = "impl ::fmi_export::fmi3::UserModel for "@ + s.name
        + " {\ntype LoggingCategory = ::fmi_export::fmi3::DefaultLoggingCategory;\n\n"@;
    let usuario = u0 + valores + activa + intervalo + "}\n\n"@;
    let export = "::fmi_export::export_fmu!("@ + s.name + ");\n"@;
    assert(t == estructura + inicio + usuario + export);
    assert(t =~= a0 + d + ("}\n\n"@ + inicio + usuario + export));
    assert(t =~= (estructura + b0) + n + ("}\n}\n}\n\n"@ + usuario + export));
    assert(activa =~= c0 + r + (OTRO_RELOJ@ + HECHO@));
    assert(dentro(r, activa));
    lemma_dentro_mas(r, activa, u0 + valores, intervalo + "}\n\n"@);
    assert(usuario =~= (u0 + valores) + activa + (intervalo + "}\n\n"@));
    lemma_dentro_mas(r, usuario, estructura + inicio, export);
}

/// An event of an output port reaches the port's own variables, and no others: in the arm of
/// every clock, the variables of port `k` are set, all of them and only they, in a block under a
/// test of a local, which the arm reads out of the place of port `k` in the output bag, and which
/// is the local of no other port.
pub proof fn ley_evento_propio(s: SpecView, b: int) -> (r: (Seq<char>, Seq<Seq<char>>))
    requires
        0 <= b <= s.in_ports.len(),
        s.out_ports.len() > 0,
    ensures
        dentro(r.0, gen_spec(s)),
        r.1.len() == s.out_ports.len(),
        r.1.no_duplicates(),
        forall|k: int|
            #![trigger s.out_ports[k]]
            0 <= k < s.out_ports.len() ==> {
                &&& dentro(
                    r.1[k] + " = "@ + lugar("__out"@, s.out_ports[k].access)
                        + ".get_values().last().copied();\n"@,
                    r.0,
                )
                &&& dentro(
                    "if let ::core::option::Option::Some(__ev) = "@ + r.1[k] + " {\n"@ + junta(
                        Seq::new(
                            s.out_ports[k].vars.len(),
                            |v: int| traslado(s.out_ports[k].vars[v]),
                        ),
                    ) + "}\n"@,
                    r.0,
                )
            },
{
    let c = ley_codigo(s);
    lemma_dentro_codigo(s, c);
    let brazo = c.brazos[b];
    lemma_dentro_junta(c.brazos, b);
    lemma_dentro_trans(brazo, junta(c.brazos), gen_spec(s));
    let lecturas = lineas_lectura(s.out_ports, c.locales);
    let bs = bloques(s.out_ports, c.locales);
    let p = if b > 0 {
        s.in_ports[b - 1]
    } else {
        arbitrary()
    };
    let fill = if b == 0 {
        "|_inp| {}"@
    } else {
        "|__inp| { let _ = "@ + lugar("__inp"@, p.access) + ".add_value(__v); }"@
    };
    let x = paso(s.out_ports, c.locales, fill);
    let vref = sin_raw(s.name) + "ValueRef"@;
    let cabeza = if b == 0 {
        "::core::result::Result::Ok("@ + vref + "::Ta) => {\n"@
    } else {
        "::core::result::Result::Ok("@ + vref + "::"@ + pascal_spec(reloj_propio(p))
            + ") => {\nlet __v = self."@ + p.field + ";\n"@
    };
    assert(brazo == cabeza + x + "}\n"@);
    let a0 = junta(lineas_locales(c.locales)) + "self.sim.step(time, "@ + fill + ", |__out| {\n"@;
    let e = Seq::<char>::empty();
    assert(x =~= a0 + junta(lecturas) + ("});\n"@ + junta(bs)));
    assert(x =~= (a0 + junta(lecturas) + "});\n"@) + junta(bs) + e);
    assert forall|k: int| #![trigger s.out_ports[k]] 0 <= k < s.out_ports.len() implies {
        &&& dentro(lecturas[k], brazo)
        &&& dentro(bs[k], brazo)
    } by {
        lemma_dentro_junta(lecturas, k);
        lemma_dentro_mas(lecturas[k], junta(lecturas), a0, "});\n"@ + junta(bs));
        lemma_dentro_mas(lecturas[k], x, cabeza, "}\n"@);
        lemma_dentro_junta(bs, k);
        lemma_dentro_mas(bs[k], junta(bs), a0 + junta(lecturas) + "});\n"@, e);
        lemma_dentro_mas(bs[k], x, cabeza, "}\n"@);
    }
    (brazo, c.locales)
}

/// What stands in a text that stands in another stands in that one.
proof fn lemma_dentro_trans(x: Seq<char>, y: Seq<char>, z: Seq<char>)
    requires
        dentro(x, y),
        dentro(y, z),
    ensures
        dentro(x, z),
{
    let (a, b) = choose|a: Seq<char>, b: Seq<char>| z == #[trigger] (a + y + b);
    lemma_dentro_mas(x, y, a, b);
}

/// The clock of an input fills the input's own port: the arm that serves it puts the input's
/// variable in the input's place of the input bag.
pub proof fn ley_entrada_propia(s: SpecView, i: int) -> (ls: Seq<Seq<char>>)
    requires
        0 <= i < s.in_ports.len(),
    ensures
        locales_buenos(s.out_ports, ls),
        dentro(
            "::core::result::Result::Ok("@ + (sin_raw(s.name) + "ValueRef"@) + "::"@ + pascal_spec(
                sin_raw(s.in_ports[i].field) + "_ev"@,
            ) + ") => {\nlet __v = self."@ + s.in_ports[i].field + ";\n"@ + paso(
                s.out_ports,
                ls,
                "|__inp| { let _ = "@ + lugar("__inp"@, s.in_ports[i].access)
                    + ".add_value(__v); }"@,
            ) + "}\n"@,
            gen_spec(s),
        ),
{
    let c = ley_codigo(s);
    lemma_dentro_codigo(s, c);
    lemma_dentro_junta(c.brazos, 1 + i);
    lemma_dentro_trans(c.brazos[1 + i], junta(c.brazos), gen_spec(s));
    c.locales
}

/// Two inputs with different places in the bag fill different ports, each with its own variable:
/// no two clocks have the same effect on the bag.
pub proof fn ley_entradas_distintas(s: SpecView, i: int, j: int) -> (r: (Seq<char>, Seq<char>))
    requires
        0 <= i < s.in_ports.len(),
        0 <= j < s.in_ports.len(),
        s.in_ports[i].access != s.in_ports[j].access,
        ({
            let a = s.in_ports[i].access;
            let b = s.in_ports[j].access;
            a is Tuple && b is Tuple || a is Array && b is Array || a is Field && b is Field
        }),
    ensures
        r.0 != r.1,
        dentro("let __v = self."@ + s.in_ports[i].field + ";\n"@, gen_spec(s)),
        dentro("let _ = "@ + r.0 + ".add_value(__v);"@, gen_spec(s)),
        r.0 == lugar("__inp"@, s.in_ports[i].access),
        dentro("let __v = self."@ + s.in_ports[j].field + ";\n"@, gen_spec(s)),
        dentro("let _ = "@ + r.1 + ".add_value(__v);"@, gen_spec(s)),
        r.1 == lugar("__inp"@, s.in_ports[j].access),
{
    ley_acceso("__inp"@, s.in_ports[i].access, s.in_ports[j].access);
    ley_acceso("__inp"@, s.in_ports[j].access, s.in_ports[i].access);
    lemma_llenado(s, i);
    lemma_llenado(s, j);
    (lugar("__inp"@, s.in_ports[i].access), lugar("__inp"@, s.in_ports[j].access))
}

/// What the arm of an input's clock holds.
#[verifier::rlimit(40)]
#[verifier::spinoff_prover]
proof fn lemma_llenado(s: SpecView, i: int)
    requires
        0 <= i < s.in_ports.len(),
    ensures
        dentro("let __v = self."@ + s.in_ports[i].field + ";\n"@, gen_spec(s)),
        dentro(
            "let _ = "@ + lugar("__inp"@, s.in_ports[i].access) + ".add_value(__v);"@,
            gen_spec(s),
        ),
{
    let p = s.in_ports[i];
    let ls = ley_entrada_propia(s, i);
    let x = lugar("__inp"@, p.access);
    let nucleo = "let _ = "@ + x + ".add_value(__v);"@;
    let fill = "|__inp| { let _ = "@ + x + ".add_value(__v); }"@;
    let c0 = "::core::result::Result::Ok("@ + (sin_raw(s.name) + "ValueRef"@) + "::"@ + pascal_spec(
        sin_raw(p.field) + "_ev"@,
    );
    let y = paso(s.out_ports, ls, fill);
    let brazo = c0 + ") => {\nlet __v = self."@ + p.field + ";\n"@ + y + "}\n"@;
    reveal_strlit(") => {\nlet __v = self.");
    reveal_strlit("let __v = self.");
    reveal_strlit("|__inp| { let _ = ");
    reveal_strlit("let _ = ");
    reveal_strlit(".add_value(__v); }");
    reveal_strlit(".add_value(__v);");
    let corto = "let __v = self."@;
    let largo = ") => {\nlet __v = self."@;
    assert(largo =~= largo.take(7) + corto);
    assert(brazo =~= (c0 + largo.take(7)) + (corto + p.field + ";\n"@) + (y + "}\n"@));
    lemma_dentro_trans(corto + p.field + ";\n"@, brazo, gen_spec(s));
    let a = "|__inp| { let _ = "@;
    let b = ".add_value(__v); }"@;
    assert(a =~= a.take(10) + "let _ = "@);
    assert(b =~= ".add_value(__v);"@ + b.skip(16));
    assert(fill =~= a.take(10) + nucleo + b.skip(16));
    let e = Seq::<char>::empty();
    if s.out_ports.len() == 0 {
        assert(y =~= "self.sim.step(time, "@ + fill + ", |_out| {});\n"@);
    } else {
        assert(y =~= (junta(lineas_locales(ls)) + "self.sim.step(time, "@) + fill + (
        ", |__out| {\n"@ + junta(lineas_lectura(s.out_ports, ls)) + "});\n"@ + junta(
            bloques(s.out_ports, ls),
        )));
    }
    assert(dentro(nucleo, fill));
    assert(dentro(fill, y));
    lemma_dentro_trans(nucleo, fill, y);
    assert(brazo =~= (c0 + largo + p.field + ";\n"@) + y + "}\n"@);
    lemma_dentro_trans(nucleo, y, brazo);
    lemma_dentro_trans(nucleo, brazo, gen_spec(s));
}

/// A variable, input or output, starts at the value that it is declared with: the struct declares
/// it with the start value of the interface, and the `Default` gives it the same one.
pub proof fn ley_arranque(s: SpecView)
    ensures
        forall|i: int|
            #![trigger s.in_ports[i]]
            0 <= i < s.in_ports.len() ==> arranca_en(
                s,
                s.in_ports[i].field,
                s.in_ports[i].ty,
                s.in_ports[i].start,
            ),
        forall|p: int, v: int|
            #![trigger s.out_ports[p].vars[v]]
            0 <= p < s.out_ports.len() && 0 <= v < s.out_ports[p].vars.len() ==> arranca_en(
                s,
                s.out_ports[p].vars[v].field,
                s.out_ports[p].vars[v].ty,
                s.out_ports[p].vars[v].start,
            ),
        forall|i: int|
            #![trigger s.ta_outputs[i]]
            0 <= i < s.ta_outputs.len() ==> arranca_en(
                s,
                s.ta_outputs[i].field,
                s.ta_outputs[i].ty,
                s.ta_outputs[i].start,
            ),
{
    let c = ley_codigo(s);
    lemma_dentro_codigo(s, c);
    let a = 1 + 2 * s.in_ports.len();
    let b = a + n_salidas(s.out_ports);
    assert forall|i: int| #![trigger s.in_ports[i]] 0 <= i < s.in_ports.len() implies arranca_en(
        s,
        s.in_ports[i].field,
        s.in_ports[i].ty,
        s.in_ports[i].start,
    ) by {
        let p = s.in_ports[i];
        lemma_arranca(s, c, 2 + 2 * i, "Input"@, p.field, p.ty, p.start, reloj_propio(p));
    }
    assert forall|p: int, v: int|
        #![trigger s.out_ports[p].vars[v]]
        0 <= p < s.out_ports.len() && 0 <= v < s.out_ports[p].vars.len() implies arranca_en(
        s,
        s.out_ports[p].vars[v].field,
        s.out_ports[p].vars[v].ty,
        s.out_ports[p].vars[v].start,
    ) by {
        let x = s.out_ports[p].vars[v];
        lemma_lugar_de_salida(s.out_ports, p, v);
        let k = a + n_salidas(s.out_ports.take(p)) + v;
        lemma_arranca(s, c, k, "Output"@, x.field, x.ty, x.start, "ta"@);
    }
    assert forall|i: int| #![trigger s.ta_outputs[i]] 0 <= i < s.ta_outputs.len() implies arranca_en(
        s,
        s.ta_outputs[i].field,
        s.ta_outputs[i].ty,
        s.ta_outputs[i].start,
    ) by {
        let o = s.ta_outputs[i];
        let rs = todos_los_relojes(s.in_ports);
        lemma_arranca(s, c, b + i, "Output"@, o.field, o.ty, o.start, rs);
    }
}

/// Whether the code declares a variable of that name and type with a start value and gives it the
/// same value in the `Default`, in the line that begins with its name.
pub open spec fn arranca_en(
    s: SpecView,
    nombre: Seq<char>,
    ty: Seq<char>,
    start: Seq<char>,
) -> bool {
    exists|causalidad: Seq<char>, clocks: Seq<char>|
        {
            &&& #[trigger] dentro(
                "#[variable(causality = "@ + causalidad + ", variability = Discrete, start = "@
                    + start + ", clocks = ["@ + clocks + "])] "@ + nombre + ": "@ + ty + ",\n"@,
                gen_spec(s),
            )
            &&& dentro(nombre + ": "@ + start + ",\n"@, gen_spec(s))
        }
}

/// The lines of one variable stand in the code.
proof fn lemma_arranca(
    s: SpecView,
    c: Codigo,
    k: int,
    causalidad: Seq<char>,
    nombre: Seq<char>,
    ty: Seq<char>,
    start: Seq<char>,
    clocks: Seq<char>,
)
    requires
        gen_spec(s) == armazon(s, c),
        dentro(junta(c.declaraciones), gen_spec(s)),
        dentro(junta(c.iniciales), gen_spec(s)),
        0 <= k < c.declaraciones.len(),
        k < c.iniciales.len(),
        es_linea_de_variable(
            c.declaraciones[k],
            c.iniciales[k],
            causalidad,
            nombre,
            ty,
            start,
            clocks,
        ),
    ensures
        arranca_en(s, nombre, ty, start),
{
    lemma_dentro_junta(c.declaraciones, k);
    lemma_dentro_trans(c.declaraciones[k], junta(c.declaraciones), gen_spec(s));
    lemma_dentro_junta(c.iniciales, k);
    lemma_dentro_trans(c.iniciales[k], junta(c.iniciales), gen_spec(s));
}

}
