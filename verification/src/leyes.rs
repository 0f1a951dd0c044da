//! What holds of the library as a whole: laws that relate what its functions state one by one.

use crate::error::ErrorView;
use crate::expansion::{
    con_attr, con_attrs, con_campo, con_campos, conversion, declarado_vacio, es_etiqueta,
    expand_struct_spec, salida_de, DeclaradoView, MacroArgsView,
};
use crate::genera::{
    campo_entrada, campo_reloj, campo_salida, campo_sim, campo_ta, campos, campos_entrada,
    campos_salida, campos_ta, gen_spec, reloj_de, relojes, texto_export, texto_usuario, CampoView,
};
use crate::interfaz::{AccessView, OutPortView, PortInfoView, SimKind, SpecView};
use crate::lectura::{syn_compile_error, syn_file, ModTextView};
use crate::macros::{
    dispatch_spec, modulo_con, nombre_invalido, pedido, renglones, ExpansionView, VolcadoView,
};
use crate::puertos::{
    dato_de, es_componente, extract_ports_spec, find_component_spec, nombre_en,
    port_data_spec, puertos_de_struct, struct_llamado, tipo_asociado, variantes_de,
};
use crate::sintaxis::{
    ArrayLenView, AttrView, BagTypeView, DataTypeView, DeclFieldView, DeclView,
    FieldView, ItemView,
};
use crate::texto::{
    ascii_mayuscula, ascii_minuscula, char_uppercase, cifra, decimal, en_mayuscula, junta,
    pascal_spec, pieza_pascal, pieza_snake, snake_spec,
};
use vstd::prelude::*;

verus! {

/// How many variables some output ports feed.
pub open spec fn n_salidas(out_ports: Seq<OutPortView>) -> nat
    decreases out_ports.len(),
{
    if out_ports.len() == 0 {
        0
    } else {
        n_salidas(out_ports.drop_last()) + out_ports.last().vars.len()
    }
}

/// The variables of the output ports take as many fields, and each one has its place: behind the
/// variables of the ports before its own.
proof fn lemma_salidas(out_ports: Seq<OutPortView>)
    ensures
        campos_salida(out_ports).len() == n_salidas(out_ports),
        forall|p: int, v: int|
            #![trigger out_ports[p].vars[v]]
            0 <= p < out_ports.len() && 0 <= v < out_ports[p].vars.len() ==> {
                &&& n_salidas(out_ports.take(p)) + v < n_salidas(out_ports)
                &&& campos_salida(out_ports)[n_salidas(out_ports.take(p)) + v] == campo_salida(
                    out_ports[p].vars[v],
                )
            },
    decreases out_ports.len(),
{
    if out_ports.len() > 0 {
        let resto = out_ports.drop_last();
        lemma_salidas(resto);
        assert forall|p: int, v: int|
            #![trigger out_ports[p].vars[v]]
            0 <= p < out_ports.len() && 0 <= v < out_ports[p].vars.len() implies {
            &&& n_salidas(out_ports.take(p)) + v < n_salidas(out_ports)
            &&& campos_salida(out_ports)[n_salidas(out_ports.take(p)) + v] == campo_salida(
                out_ports[p].vars[v],
            )
        } by {
            if p < resto.len() {
                assert(resto.take(p) =~= out_ports.take(p));
                assert(resto[p].vars[v] == out_ports[p].vars[v]);
            } else {
                assert(out_ports.take(p) =~= resto);
            }
        }
    }
}

/// The layout of an FMU, which fixes its value references (the field at place `k` has the
/// reference `k + 1`): the countdown clock comes first; then, for each input, its triggered clock
/// and its data; then the variables of each output port; then the outputs that show the time
/// left; and last the simulation, which is no variable.
pub proof fn ley_campos(s: SpecView)
    ensures
        campos(s).len() == 2 + 2 * s.in_ports.len() + n_salidas(s.out_ports) + s.ta_outputs.len(),
        campos(s)[0] == (CampoView::Reloj { nombre: "ta"@, countdown: true }),
        forall|i: int|
            #![trigger s.in_ports[i]]
            0 <= i < s.in_ports.len() ==> {
                &&& campos(s)[1 + 2 * i] == campo_reloj(s.in_ports[i])
                &&& campos(s)[2 + 2 * i] == campo_entrada(s.in_ports[i])
            },
        forall|p: int, v: int|
            #![trigger s.out_ports[p].vars[v]]
            0 <= p < s.out_ports.len() && 0 <= v < s.out_ports[p].vars.len() ==> campos(s)[1 + 2
                * s.in_ports.len() + n_salidas(s.out_ports.take(p)) + v] == campo_salida(
                s.out_ports[p].vars[v],
            ),
        forall|i: int|
            #![trigger s.ta_outputs[i]]
            0 <= i < s.ta_outputs.len() ==> campos(s)[1 + 2 * s.in_ports.len() + n_salidas(
                s.out_ports,
            ) + i] == campo_ta(s.ta_outputs[i], s.in_ports),
        campos(s).last() == campo_sim(s),
{
    lemma_salidas(s.out_ports);
    let a = seq![CampoView::Reloj { nombre: "ta"@, countdown: true }];
    let b = campos_entrada(s.in_ports);
    let c = campos_salida(s.out_ports);
    let d = campos_ta(s.ta_outputs, s.in_ports);
    let e = seq![campo_sim(s)];
    assert(campos(s) == a + b + c + d + e);
    assert forall|i: int| #![trigger s.in_ports[i]] 0 <= i < s.in_ports.len() implies {
        &&& campos(s)[1 + 2 * i] == campo_reloj(s.in_ports[i])
        &&& campos(s)[2 + 2 * i] == campo_entrada(s.in_ports[i])
    } by {
        assert(campos(s)[1 + 2 * i] == b[2 * i]);
        assert(campos(s)[2 + 2 * i] == b[2 * i + 1]);
    }
}

/// Whether some field is a clock of that name.
pub open spec fn es_reloj(cs: Seq<CampoView>, nombre: Seq<char>) -> bool {
    exists|j: int|
        0 <= j < cs.len() && (#[trigger] cs[j] matches CampoView::Reloj { nombre: n, .. } && n
            == nombre)
}

/// Every variable of the output ports is valid under the countdown clock alone.
proof fn lemma_salidas_ta(out_ports: Seq<OutPortView>)
    ensures
        forall|k: int|
            0 <= k < campos_salida(out_ports).len() ==> (#[trigger] campos_salida(
                out_ports,
            )[k] matches CampoView::Variable { clocks, .. } && clocks == seq!["ta"@]),
    decreases out_ports.len(),
{
    if out_ports.len() > 0 {
        lemma_salidas_ta(out_ports.drop_last());
    }
}

/// Every variable is valid under some clock, and only under clocks that the FMU has: one
/// countdown clock, which is the first field and no other, and one triggered clock for each
/// input.
pub proof fn ley_relojes(s: SpecView)
    ensures
        forall|k: int|
            0 <= k < campos(s).len() ==> ((#[trigger] campos(s)[k] matches CampoView::Reloj {
                countdown,
                ..
            } && countdown) <==> k == 0),
        forall|k: int|
            0 <= k < campos(s).len() ==> (#[trigger] campos(s)[k] matches CampoView::Variable {
                clocks,
                ..
            } ==> clocks.len() > 0 && forall|c: int|
                0 <= c < clocks.len() ==> es_reloj(campos(s), #[trigger] clocks[c])),
        forall|i: int|
            0 <= i < s.in_ports.len() ==> es_reloj(
                campos(s),
                reloj_de((#[trigger] s.in_ports[i]).field),
            ),
{
    ley_campos(s);
    lemma_salidas(s.out_ports);
    lemma_salidas_ta(s.out_ports);
    let n = s.in_ports.len();
    let a = seq![CampoView::Reloj { nombre: "ta"@, countdown: true }];
    let b = campos_entrada(s.in_ports);
    let c = campos_salida(s.out_ports);
    let d = campos_ta(s.ta_outputs, s.in_ports);
    let e = seq![campo_sim(s)];
    let todos = campos(s);
    assert(todos == a + b + c + d + e);
    assert(todos[0] is Reloj);
    assert(es_reloj(todos, "ta"@));
    assert forall|i: int| 0 <= i < n implies es_reloj(
        todos,
        reloj_de((#[trigger] s.in_ports[i]).field),
    ) by {
        assert(todos[1 + 2 * i] == campo_reloj(s.in_ports[i]));
    }
    assert forall|k: int| 0 <= k < todos.len() implies {
        &&& (#[trigger] todos[k] matches CampoView::Reloj { countdown, .. } && countdown) <==> k
            == 0
        &&& todos[k] matches CampoView::Variable { clocks, .. } ==> clocks.len() > 0 && forall|
            x: int,
        |
            0 <= x < clocks.len() ==> es_reloj(todos, #[trigger] clocks[x])
    } by {
        if 0 < k <= 2 * n {
            assert(todos[k] == b[k - 1]);
            if (k - 1) % 2 == 1 {
                let p = s.in_ports[(k - 1) / 2];
                assert(b[k - 1] == campo_entrada(p));
                assert(es_reloj(todos, reloj_de(p.field)));
            }
        } else if 2 * n < k <= 2 * n + c.len() {
            assert(todos[k] == c[k - 1 - 2 * n]);
        } else if 2 * n + c.len() < k <= 2 * n + c.len() + d.len() {
            let i = k - 1 - 2 * n - c.len();
            assert(todos[k] == d[i]);
            assert(d[i] == campo_ta(s.ta_outputs[i], s.in_ports));
            let rs = relojes(s.in_ports);
            assert forall|x: int| 0 <= x < rs.len() implies es_reloj(todos, #[trigger] rs[x]) by {
                if x > 0 {
                    assert(rs[x] == reloj_de(s.in_ports[x - 1].field));
                }
            }
        }
    }
}

/// A struct of ports gives a port for each field, in order.
proof fn lemma_struct(fields: Seq<FieldView>)
    requires
        puertos_de_struct(fields) is Ok,
    ensures
        puertos_de_struct(fields)->Ok_0.len() == fields.len(),
        forall|i: int|
            0 <= i < fields.len() ==> {
                let p = #[trigger] puertos_de_struct(fields)->Ok_0[i];
                &&& fields[i].ident == Some(p.base_name)
                &&& p.access == AccessView::Field(p.base_name)
                &&& port_data_spec(fields[i].ty) == Some(p.data)
            },
    decreases fields.len(),
{
    if fields.len() > 0 {
        lemma_struct(fields.drop_last());
    }
}

/// How many ports each shape of a bag has, how each one is reached and what it is called: a port
/// is the whole bag; a tuple has one for each element, by its position; an array has as many as
/// it is long, by their index; a struct of ports has one for each field, by its name. The empty
/// tuple has none.
pub proof fn ley_formas(ty: BagTypeView, items: Seq<ItemView>, prefix: Seq<char>)
    requires
        extract_ports_spec(ty, items, prefix) is Ok,
    ensures
        ({
            let ps = extract_ports_spec(ty, items, prefix)->Ok_0;
            match ty {
                BagTypeView::Path(p) => match dato_de(p) {
                    Some(data) => ps == seq![
                        PortInfoView { access: AccessView::Whole, data, base_name: prefix },
                    ],
                    None => {
                        &&& p.segments.len() > 0
                        &&& struct_llamado(items, p.segments.last().ident) matches Some(fields)
                        &&& ps.len() == fields.len()
                        &&& forall|i: int|
                            0 <= i < fields.len() ==> {
                                &&& fields[i].ident == Some((#[trigger] ps[i]).base_name)
                                &&& ps[i].access == AccessView::Field(ps[i].base_name)
                                &&& port_data_spec(fields[i].ty) == Some(ps[i].data)
                            }
                    },
                },
                BagTypeView::Tuple(elems) => {
                    &&& ps.len() == elems.len()
                    &&& forall|i: int|
                        0 <= i < elems.len() ==> {
                            &&& (#[trigger] ps[i]).access == AccessView::Tuple(i as nat)
                            &&& ps[i].base_name == nombre_en(prefix, i)
                            &&& port_data_spec(elems[i]) == Some(ps[i].data)
                        }
                },
                BagTypeView::Array(elem, len) => {
                    &&& len matches ArrayLenView::Count(k)
                    &&& ps.len() == k
                    &&& forall|i: int|
                        0 <= i < k ==> {
                            &&& (#[trigger] ps[i]).access == AccessView::Array(i as nat)
                            &&& ps[i].base_name == nombre_en(prefix, i)
                            &&& port_data_spec(elem) == Some(ps[i].data)
                        }
                },
                BagTypeView::Other => false,
            }
        }),
        ty == BagTypeView::Tuple(Seq::empty()) ==> extract_ports_spec(ty, items, prefix)->Ok_0.len()
            == 0,
{
    if let BagTypeView::Path(p) = ty {
        if dato_de(p) is None {
            lemma_struct(struct_llamado(items, p.segments.last().ident)->0);
        }
    }
}

/// A number is told by its decimal form.
pub proof fn lemma_decimal(a: nat, b: nat)
    requires
        decimal(a) == decimal(b),
    ensures
        a == b,
    decreases a,
{
    lemma_decimal_largo(a);
    lemma_decimal_largo(b);
    if a < 10 {
        assert(decimal(a).last() == cifra(a));
        assert(decimal(b).last() == cifra(b % 10));
    } else {
        assert(decimal(a).last() == cifra(a % 10));
        assert(decimal(b).last() == cifra(b % 10));
        assert(decimal(a).drop_last() =~= decimal(a / 10));
        assert(decimal(b).drop_last() =~= decimal(b / 10));
        lemma_decimal(a / 10, b / 10);
    }
}

/// A number has one digit if and only if it is less than ten.
proof fn lemma_decimal_largo(n: nat)
    ensures
        decimal(n).len() >= 1,
        decimal(n).len() == 1 <==> n < 10,
    decreases n,
{
    if n >= 10 {
        lemma_decimal_largo(n / 10);
    }
}

/// The ports of a bag have different names, as long as the fields of its struct have.
pub proof fn ley_puertos_distintos(
    ty: BagTypeView,
    items: Seq<ItemView>,
    prefix: Seq<char>,
    i: int,
    j: int,
)
    requires
        extract_ports_spec(ty, items, prefix) is Ok,
        0 <= i < j < extract_ports_spec(ty, items, prefix)->Ok_0.len(),
        ty matches BagTypeView::Path(p) ==> {
            let fields = struct_llamado(items, p.segments.last().ident)->0;
            dato_de(p) is None ==> fields[i].ident != fields[j].ident
        },
    ensures
        extract_ports_spec(ty, items, prefix)->Ok_0[i].base_name != extract_ports_spec(
            ty,
            items,
            prefix,
        )->Ok_0[j].base_name,
{
    ley_formas(ty, items, prefix);
    let ps = extract_ports_spec(ty, items, prefix)->Ok_0;
    if (ty is Tuple || ty is Array) && ps[i].base_name == ps[j].base_name {
        let cabeza = prefix + "_"@;
        let n = cabeza.len() as int;
        assert(nombre_en(prefix, i).skip(n) =~= decimal(i as nat));
        assert(nombre_en(prefix, j).skip(n) =~= decimal(j as nat));
        lemma_decimal(i as nat, j as nat);
    }
}

/// The place of the first component of the kind, if there is one.
proof fn lemma_componente(items: Seq<ItemView>, kind: SimKind, k: int)
    requires
        0 <= k < items.len(),
        es_componente(items[k], kind),
        forall|j: int| 0 <= j < k ==> !es_componente(#[trigger] items[j], kind),
    ensures
        find_component_spec(items, kind) == find_component_spec(seq![items[k]], kind),
    decreases k,
{
    if k > 0 {
        assert(!es_componente(items[0], kind));
        let resto = items.drop_first();
        assert forall|j: int| 0 <= j < k - 1 implies !es_componente(#[trigger] resto[j], kind) by {
            assert(!es_componente(items[j + 1], kind));
        }
        lemma_componente(resto, kind, k - 1);
    }
}

/// In a module with several components the first one of the kind is the model, and its bags are
/// those that it declares. A component is never of both kinds.
pub proof fn ley_componente(items: Seq<ItemView>, kind: SimKind, k: int)
    requires
        0 <= k < items.len(),
        es_componente(items[k], kind),
        forall|j: int| 0 <= j < k ==> !es_componente(#[trigger] items[j], kind),
    ensures
        items[k] matches ItemView::Impl(_, self_ty, types) && find_component_spec(items, kind) == (
        match (tipo_asociado(types, "Input"@), tipo_asociado(types, "Output"@)) {
            (Some(input), Some(output)) => Some((self_ty, input, output)),
            _ => None,
        }),
        forall|otro: SimKind| otro != kind ==> !es_componente(items[k], otro),
{
    lemma_componente(items, kind, k);
    reveal_strlit("AtomicKind");
    reveal_strlit("CoupledKind");
    assert("AtomicKind"@.len() != "CoupledKind"@.len());
}

/// A module without a component of the kind has no model for it, whatever other components it
/// holds.
pub proof fn ley_sin_componente(items: Seq<ItemView>, kind: SimKind)
    requires
        forall|j: int| 0 <= j < items.len() ==> !es_componente(#[trigger] items[j], kind),
    ensures
        find_component_spec(items, kind) is None,
    decreases items.len(),
{
    if items.len() > 0 {
        let resto = items.drop_first();
        assert(!es_componente(items[0], kind));
        assert forall|j: int| 0 <= j < resto.len() implies !es_componente(
            #[trigger] resto[j],
            kind,
        ) by {
            assert(!es_componente(items[j + 1], kind));
        }
        ley_sin_componente(resto, kind);
    }
}

/// A name in pascal case, in ASCII: it begins with no small letter and has no underscores.
pub open spec fn en_pascal(v: Seq<char>) -> bool {
    &&& v.len() > 0 ==> !ascii_minuscula(v[0])
    &&& forall|i: int| 0 <= i < v.len() ==> #[trigger] v[i] <= '\x7f' && v[i] != '_'
}

/// The pascal-case form of a name with one more character.
pub proof fn lemma_pascal_mas(s: Seq<char>, c: char)
    ensures
        pascal_spec(s.push(c)) == pascal_spec(s) + pieza_pascal(s.push(c), s.len() as int),
{
    let t = s.push(c);
    let piezas = Seq::new(t.len(), |i: int| pieza_pascal(t, i));
    assert(piezas.drop_last() =~= Seq::new(s.len(), |i: int| pieza_pascal(s, i)));
}

/// The pascal-case form of two texts with an underscore between them is that of the one and then
/// that of the other, whatever underscores they begin with, end in or hold.
pub proof fn ley_pascal_palabras(a: Seq<char>, b: Seq<char>)
    ensures
        pascal_spec(a + "_"@ + b) == pascal_spec(a) + pascal_spec(b),
    decreases b.len(),
{
    reveal_strlit("_");
    if b.len() == 0 {
        assert(a + "_"@ + b =~= a.push('_'));
        lemma_pascal_mas(a, '_');
        assert(pascal_spec(a) + pascal_spec(b) =~= pascal_spec(a.push('_')));
    } else {
        let resto = b.drop_last();
        let c = b.last();
        let antes = a + "_"@ + resto;
        assert(a + "_"@ + b =~= antes.push(c));
        assert(b =~= resto.push(c));
        ley_pascal_palabras(a, resto);
        lemma_pascal_mas(antes, c);
        lemma_pascal_mas(resto, c);
        let i = resto.len() as int;
        assert(pieza_pascal(antes.push(c), antes.len() as int) == pieza_pascal(resto.push(c), i));
        assert(pascal_spec(a + "_"@ + b) =~= pascal_spec(a) + pascal_spec(b));
    }
}

/// No underscore is left in the pascal-case form of a name in ASCII. In that of any other text
/// there could be one only out of the upper-case form of a character beyond ASCII that begins a
/// word; the contract of `pascal` says that there is none.
pub proof fn ley_pascal_sin_guiones(a: Seq<char>)
    ensures
        pascal_spec(a).contains('_') ==> exists|i: int|
            {
                &&& 0 <= i < a.len()
                &&& #[trigger] a[i] > '\x7f'
                &&& i == 0 || a[i - 1] == '_'
                &&& char_uppercase(a[i]).contains('_')
            },
        en_ascii(a) ==> !pascal_spec(a).contains('_'),
    decreases a.len(),
{
    if a.len() > 0 {
        let u = a.drop_last();
        let c = a.last();
        let n = u.len() as int;
        assert(a =~= u.push(c));
        ley_pascal_sin_guiones(u);
        lemma_pascal_mas(u, c);
        let pieza = pieza_pascal(a, n);
        if pascal_spec(a).contains('_') {
            if pascal_spec(u).contains('_') {
                let i = choose|i: int|
                    {
                        &&& 0 <= i < u.len()
                        &&& #[trigger] u[i] > '\x7f'
                        &&& i == 0 || u[i - 1] == '_'
                        &&& char_uppercase(u[i]).contains('_')
                    };
                assert(a[i] == u[i]);
            } else {
                let k = choose|k: int|
                    0 <= k < pascal_spec(a).len() && pascal_spec(a)[k] == '_';
                let m = pascal_spec(u).len();
                if k < m {
                    assert(pascal_spec(u)[k] == '_');
                }
                assert(pieza[k - m] == '_');
                assert(pieza.contains('_'));
                assert(a[n] > '\x7f');
            }
        }
    }
}

/// A single word in pascal case is the word with its first character in upper case, and the rest
/// as it stands, capitals too; the first character of a word in ASCII stays a single one. Of
/// nothing there is nothing.
pub proof fn ley_pascal_palabra(a: Seq<char>)
    requires
        !a.contains('_'),
    ensures
        a.len() == 0 ==> pascal_spec(a) == Seq::<char>::empty(),
        a.len() > 0 ==> pascal_spec(a) == en_mayuscula(a[0]) + a.skip(1),
        a.len() > 0 && a[0] <= '\x7f' ==> pascal_spec(a) == a.update(0, en_mayuscula(a[0])[0]),
    decreases a.len(),
{
    if a.len() == 0 {
        assert(pascal_spec(a) =~= Seq::<char>::empty());
    } else {
        let u = a.drop_last();
        let c = a.last();
        assert(a =~= u.push(c));
        assert forall|i: int| 0 <= i < u.len() implies #[trigger] u[i] != '_' by {
            assert(a[i] == u[i]);
        }
        assert(a[a.len() - 1] != '_');
        ley_pascal_palabra(u);
        lemma_pascal_mas(u, c);
        if u.len() > 0 {
            assert(a[u.len() - 1] != '_');
        }
        assert(pascal_spec(a) =~= en_mayuscula(a[0]) + a.skip(1));
        if a[0] <= '\x7f' {
            assert(pascal_spec(a) =~= a.update(0, en_mayuscula(a[0])[0]));
        }
    }
}

/// The snake-case form of a name with one more character.
pub proof fn lemma_snake_mas(s: Seq<char>, c: char)
    ensures
        snake_spec(s.push(c)) == snake_spec(s) + pieza_snake(s.push(c), s.len() as int),
{
    let t = s.push(c);
    let piezas = Seq::new(t.len(), |i: int| pieza_snake(t, i));
    assert(piezas.drop_last() =~= Seq::new(s.len(), |i: int| pieza_snake(s, i)));
}

/// A text in ASCII.
pub open spec fn en_ascii(v: Seq<char>) -> bool {
    forall|i: int| 0 <= i < v.len() ==> #[trigger] v[i] <= '\x7f'
}

/// Whether a text holds a capital letter of ASCII.
pub open spec fn con_mayusculas(v: Seq<char>) -> bool {
    exists|i: int| 0 <= i < v.len() && ascii_mayuscula(#[trigger] v[i])
}

/// How many capital letters of ASCII a text holds.
pub open spec fn n_mayusculas(v: Seq<char>) -> nat
    decreases v.len(),
{
    if v.len() == 0 {
        0
    } else {
        n_mayusculas(v.drop_last()) + if ascii_mayuscula(v.last()) {
            1nat
        } else {
            0
        }
    }
}

/// The snake-case form of a name in ASCII is in ASCII, without capitals, and longer by the
/// capitals behind the first place; a name without capitals is its own.
proof fn lemma_snake(v: Seq<char>)
    requires
        en_ascii(v),
    ensures
        en_ascii(snake_spec(v)),
        !con_mayusculas(snake_spec(v)),
        !con_mayusculas(v) ==> snake_spec(v) == v,
        v.len() > 0 ==> snake_spec(v).len() == v.len() + n_mayusculas(v.skip(1)),
    decreases v.len(),
{
    if v.len() == 0 {
        assert(snake_spec(v) =~= v);
    } else {
        let u = v.drop_last();
        let c = v.last();
        let s = snake_spec(u);
        let n = u.len() as int;
        assert(v =~= u.push(c));
        assert(v[n] == c);
        assert forall|i: int| 0 <= i < u.len() implies #[trigger] u[i] <= '\x7f' by {
            assert(v[i] == u[i]);
        }
        lemma_snake(u);
        lemma_snake_mas(u, c);
        let pieza = pieza_snake(v, n);
        assert forall|i: int| 0 <= i < pieza.len() implies #[trigger] pieza[i] <= '\x7f'
            && !ascii_mayuscula(pieza[i]) by {}
        let t = snake_spec(v);
        assert(t == s + pieza);
        assert forall|i: int| 0 <= i < t.len() implies #[trigger] t[i] <= '\x7f'
            && !ascii_mayuscula(t[i]) by {
            if i < s.len() {
                assert(t[i] == s[i]);
            } else {
                assert(t[i] == pieza[i - s.len()]);
            }
        }
        if !con_mayusculas(v) {
            assert(!ascii_mayuscula(v[n]));
            assert forall|i: int| 0 <= i < u.len() implies !ascii_mayuscula(#[trigger] u[i]) by {
                assert(v[i] == u[i]);
            }
            assert(t =~= v);
        }
        if u.len() == 0 {
            assert(s =~= Seq::empty());
            assert(v.skip(1) =~= Seq::empty());
        } else {
            assert(v.skip(1).drop_last() =~= u.skip(1));
            assert(v.skip(1).last() == c);
        }
    }
}

/// The snake-case form of a name in ASCII has no capitals and is longer by as many places as the
/// name has capitals behind the first place. It is the name itself if and only if that has no
/// capitals, so that taking it twice changes nothing more.
pub proof fn ley_snake(v: Seq<char>)
    requires
        en_ascii(v),
    ensures
        !con_mayusculas(snake_spec(v)),
        snake_spec(v) == v <==> !con_mayusculas(v),
        snake_spec(snake_spec(v)) == snake_spec(v),
        v.len() == 0 ==> snake_spec(v).len() == 0,
        v.len() > 0 ==> snake_spec(v).len() == v.len() + n_mayusculas(v.skip(1)),
{
    lemma_snake(v);
    lemma_snake(snake_spec(v));
}

/// The snake-case form of a name in pascal case ends in no underscore, and leads back to it.
proof fn lemma_ida_y_vuelta(v: Seq<char>)
    requires
        en_pascal(v),
    ensures
        pascal_spec(snake_spec(v)) == v,
        v.len() > 0 ==> snake_spec(v).len() > 0 && snake_spec(v).last() != '_',
    decreases v.len(),
{
    if v.len() == 0 {
        assert(snake_spec(v) =~= Seq::empty());
        assert(pascal_spec(Seq::empty()) =~= v);
    } else {
        let u = v.drop_last();
        let c = v.last();
        assert(v =~= u.push(c));
        assert forall|i: int| 0 <= i < u.len() implies #[trigger] u[i] <= '\x7f' && u[i]
            != '_' by {
            assert(v[i] == u[i]);
        }
        lemma_ida_y_vuelta(u);
        lemma_snake_mas(u, c);
        let s = snake_spec(u);
        assert(c <= '\x7f' && c != '_');
        if ascii_mayuscula(c) {
            let m = (c as u8 + 32) as char;
            if u.len() == 0 {
                assert(s =~= Seq::empty());
                assert(snake_spec(v) =~= s.push(m));
                lemma_pascal_mas(s, m);
                assert(pascal_spec(snake_spec(v)) =~= v);
            } else {
                assert(snake_spec(v) =~= s.push('_').push(m));
                lemma_pascal_mas(s, '_');
                lemma_pascal_mas(s.push('_'), m);
                assert(pascal_spec(snake_spec(v)) =~= v);
            }
        } else {
            assert(snake_spec(v) =~= s.push(c));
            lemma_pascal_mas(s, c);
            assert(pascal_spec(snake_spec(v)) =~= v);
        }
    }
}

/// The snake-case form of a name in pascal case leads back to the name, so that two such names
/// never share it.
pub proof fn ley_ida_y_vuelta(v: Seq<char>, w: Seq<char>)
    requires
        en_pascal(v),
        en_pascal(w),
    ensures
        pascal_spec(snake_spec(v)) == v,
        v != w ==> snake_spec(v) != snake_spec(w),
{
    lemma_ida_y_vuelta(v);
    lemma_ida_y_vuelta(w);
}

/// An output port that carries an enum of the module has a variable for each variant, in order:
/// a number that starts at zero, set to one by the events of its own variant and to zero by those
/// of any other. Variants with different names in pascal case give variables with different
/// names.
pub proof fn ley_variantes(p: PortInfoView, items: Seq<ItemView>, unico: bool)
    requires
        variantes_de(items, p.data) is Some,
    ensures
        salida_de(p, items, unico).access == p.access,
        salida_de(p, items, unico).vars.len() == variantes_de(items, p.data)->0.len(),
        forall|i: int|
            0 <= i < salida_de(p, items, unico).vars.len() ==> {
                let v = #[trigger] salida_de(p, items, unico).vars[i];
                &&& v.from == Some(conversion(p.data.text, variantes_de(items, p.data)->0[i]))
                &&& v.ty == "f64"@
                &&& v.start == "0.0"@
            },
        forall|i: int, j: int|
            {
                &&& 0 <= i < salida_de(p, items, unico).vars.len()
                &&& 0 <= j < salida_de(p, items, unico).vars.len()
                &&& en_pascal(variantes_de(items, p.data)->0[i])
                &&& en_pascal(variantes_de(items, p.data)->0[j])
                &&& variantes_de(items, p.data)->0[i] != variantes_de(items, p.data)->0[j]
            } ==> (#[trigger] salida_de(p, items, unico).vars[i]).field != (
            #[trigger] salida_de(p, items, unico).vars[j]).field,
{
    let vs = variantes_de(items, p.data)->0;
    let vars = salida_de(p, items, unico).vars;
    assert forall|i: int, j: int|
        {
            &&& 0 <= i < vars.len()
            &&& 0 <= j < vars.len()
            &&& en_pascal(vs[i])
            &&& en_pascal(vs[j])
            &&& vs[i] != vs[j]
        } implies (#[trigger] vars[i]).field != (#[trigger] vars[j]).field by {
        ley_ida_y_vuelta(vs[i], vs[j]);
        if !unico && vars[i].field == vars[j].field {
            let cabeza = p.base_name + "_"@;
            let n = cabeza.len() as int;
            assert(vars[i].field.skip(n) =~= snake_spec(vs[i]));
            assert(vars[j].field.skip(n) =~= snake_spec(vs[j]));
        }
    }
}

/// The FMU of a coupled model is that of an atomic one with the same interface, except for the
/// simulation that it holds: the same variables and clocks in the same places, the same dispatch.
pub proof fn ley_acoplado(atomo: SpecView, acoplado: SpecView)
    requires
        acoplado == (SpecView { kind: acoplado.kind, ..atomo }),
    ensures
        campos(atomo).len() == campos(acoplado).len(),
        campos(atomo).drop_last() == campos(acoplado).drop_last(),
        texto_usuario(atomo) == texto_usuario(acoplado),
        texto_export(atomo) == texto_export(acoplado),
{
    assert(campos(atomo).drop_last() =~= campos(acoplado).drop_last());
}

/// A declared interface is the same for a coupled model as for an atomic one.
pub proof fn ley_acoplado_declarado(args: MacroArgsView, item: DeclView)
    ensures
        expand_struct_spec(args, item, SimKind::Coupled) == match expand_struct_spec(
            args,
            item,
            SimKind::Atomic,
        ) {
            Ok(s) => Ok(SpecView { kind: SimKind::Coupled, ..s }),
            Err(e) => Err(e),
        },
{
}

/// How many attributes of a field have that name.
pub open spec fn n_attrs(ats: Seq<AttrView>, name: Seq<char>) -> nat
    decreases ats.len(),
{
    if ats.len() == 0 {
        0
    } else {
        n_attrs(ats.drop_first(), name) + if ats[0].ident == Some(name) {
            1nat
        } else {
            0
        }
    }
}

/// How many attributes of some fields have that name.
pub open spec fn n_etiquetas(fs: Seq<DeclFieldView>, name: Seq<char>) -> nat
    decreases fs.len(),
{
    if fs.len() == 0 {
        0
    } else {
        n_attrs(fs[0].attrs, name) + n_etiquetas(fs.drop_first(), name)
    }
}

/// Whether some variable has that name and that type.
pub open spec fn tiene_variable(d: DeclaradoView, name: Seq<char>, ty: Seq<char>) -> bool {
    ||| exists|j: int|
        0 <= j < d.in_ports.len() && (#[trigger] d.in_ports[j]).field == name && d.in_ports[j].ty
            == ty
    ||| exists|j: int|
        0 <= j < d.out_vars.len() && (#[trigger] d.out_vars[j]).field == name && d.out_vars[j].ty
            == ty
    ||| exists|j: int|
        0 <= j < d.ta_outputs.len() && (#[trigger] d.ta_outputs[j]).field == name
            && d.ta_outputs[j].ty == ty
}

/// Whether some variables are others with more behind them.
pub open spec fn amplia(d: DeclaradoView, c: DeclaradoView) -> bool {
    &&& d.in_ports.is_prefix_of(c.in_ports)
    &&& d.out_vars.is_prefix_of(c.out_vars)
    &&& d.ta_outputs.is_prefix_of(c.ta_outputs)
}

/// A variable stays when more come behind it.
proof fn lemma_amplia(d: DeclaradoView, c: DeclaradoView, name: Seq<char>, ty: Seq<char>)
    requires
        amplia(d, c),
        tiene_variable(d, name, ty),
    ensures
        tiene_variable(c, name, ty),
{
    assert(forall|j: int| 0 <= j < d.in_ports.len() ==> c.in_ports[j] == #[trigger] d.in_ports[j]);
    assert(forall|j: int| 0 <= j < d.out_vars.len() ==> c.out_vars[j] == #[trigger] d.out_vars[j]);
    assert(forall|j: int|
        0 <= j < d.ta_outputs.len() ==> c.ta_outputs[j] == #[trigger] d.ta_outputs[j]);
}

/// What one attribute adds.
proof fn lemma_attr(
    d: DeclaradoView,
    name: Seq<char>,
    ty: DataTypeView,
    at: AttrView,
    c: DeclaradoView,
)
    requires
        con_attr(d, name, ty, at) == Ok::<DeclaradoView, ErrorView>(c),
    ensures
        amplia(d, c),
        c.in_ports.len() == d.in_ports.len() + n_attrs(seq![at], "input"@),
        c.out_vars.len() + c.ta_outputs.len() == d.out_vars.len() + d.ta_outputs.len() + n_attrs(
            seq![at],
            "output"@,
        ),
        es_etiqueta(at) ==> tiene_variable(c, name, ty.text),
{
    reveal_strlit("input");
    reveal_strlit("output");
    assert("input"@.len() != "output"@.len());
    reveal_with_fuel(n_attrs, 2);
    assert(c.in_ports.len() > d.in_ports.len() ==> c.in_ports.last().field == name
        && c.in_ports.last().ty == ty.text);
    assert(c.out_vars.len() > d.out_vars.len() ==> c.out_vars.last().field == name
        && c.out_vars.last().ty == ty.text);
    assert(c.ta_outputs.len() > d.ta_outputs.len() ==> c.ta_outputs.last().field == name
        && c.ta_outputs.last().ty == ty.text);
}

/// What some attributes add.
proof fn lemma_attrs(
    d: DeclaradoView,
    name: Seq<char>,
    ty: DataTypeView,
    ats: Seq<AttrView>,
    c: DeclaradoView,
)
    requires
        con_attrs(d, name, ty, ats) == Ok::<DeclaradoView, ErrorView>(c),
    ensures
        amplia(d, c),
        c.in_ports.len() == d.in_ports.len() + n_attrs(ats, "input"@),
        c.out_vars.len() + c.ta_outputs.len() == d.out_vars.len() + d.ta_outputs.len() + n_attrs(
            ats,
            "output"@,
        ),
        (exists|k: int| 0 <= k < ats.len() && es_etiqueta(#[trigger] ats[k])) ==> tiene_variable(
            c,
            name,
            ty.text,
        ),
    decreases ats.len(),
{
    if ats.len() > 0 {
        let b = con_attr(d, name, ty, ats[0])->Ok_0;
        let resto = ats.drop_first();
        lemma_attr(d, name, ty, ats[0], b);
        lemma_attrs(b, name, ty, resto, c);
        reveal_with_fuel(n_attrs, 2);
        assert(seq![ats[0]].drop_first() =~= Seq::empty());
        if es_etiqueta(ats[0]) {
            lemma_amplia(b, c, name, ty.text);
        } else if exists|k: int| 0 <= k < ats.len() && es_etiqueta(#[trigger] ats[k]) {
            let k = choose|k: int| 0 <= k < ats.len() && es_etiqueta(#[trigger] ats[k]);
            assert(resto[k - 1] == ats[k]);
        }
    }
}

/// What some fields add.
proof fn lemma_campos(d: DeclaradoView, fs: Seq<DeclFieldView>, c: DeclaradoView)
    requires
        con_campos(d, fs) == Ok::<DeclaradoView, ErrorView>(c),
    ensures
        amplia(d, c),
        c.in_ports.len() == d.in_ports.len() + n_etiquetas(fs, "input"@),
        c.out_vars.len() + c.ta_outputs.len() == d.out_vars.len() + d.ta_outputs.len()
            + n_etiquetas(fs, "output"@),
        forall|k: int|
            0 <= k < fs.len() ==> ((#[trigger] fs[k]).ident matches Some(name) && tiene_variable(
                c,
                name,
                fs[k].ty.text,
            )),
    decreases fs.len(),
{
    if fs.len() > 0 {
        let f = fs[0];
        let b = con_campo(d, f)->Ok_0;
        let resto = fs.drop_first();
        lemma_attrs(d, f.ident->0, f.ty, f.attrs, b);
        lemma_campos(b, resto, c);
        lemma_amplia(b, c, f.ident->0, f.ty.text);
        assert forall|k: int| 0 <= k < fs.len() implies ((#[trigger] fs[k]).ident matches Some(name)
            && tiene_variable(c, name, fs[k].ty.text)) by {
            if k > 0 {
                assert(resto[k - 1] == fs[k]);
            }
        }
    }
}

/// A declared interface has an input for each `#[input]` and an output for each `#[output]`, and
/// every field becomes a variable of its name and type.
pub proof fn ley_declarado(fs: Seq<DeclFieldView>, d: DeclaradoView)
    requires
        con_campos(declarado_vacio(), fs) == Ok::<DeclaradoView, ErrorView>(d),
    ensures
        d.in_ports.len() == n_etiquetas(fs, "input"@),
        d.out_vars.len() + d.ta_outputs.len() == n_etiquetas(fs, "output"@),
        forall|k: int|
            0 <= k < fs.len() ==> ((#[trigger] fs[k]).ident matches Some(name) && tiene_variable(
                d,
                name,
                fs[k].ty.text,
            )),
{
    lemma_campos(declarado_vacio(), fs, d);
}

/// A request that is refused is answered with a compile error that says why, and nothing is
/// generated for it. Any other, whose names are identifiers, has its code generated under the
/// name of its FMU.
pub proof fn ley_rechazo(args: Seq<char>, item: Seq<char>, kind: SimKind)
    ensures
        pedido(args, item, kind) matches Err(e) ==> dispatch_spec(args, item, kind) == (
        ExpansionView { salida: syn_compile_error(e.texto()), volcado: None }),
        pedido(args, item, kind) matches Ok((s, _)) ==> match nombre_invalido(s) {
            Some(n) => dispatch_spec(args, item, kind) == (ExpansionView {
                salida: syn_compile_error(ErrorView::NoEsIdentificador(n).texto()),
                volcado: None,
            }),
            None => dispatch_spec(args, item, kind).volcado == Some(
                VolcadoView { name: s.name, codigo: gen_spec(s) },
            ),
        },
{
}

/// The code that is written out is the code that takes effect: over a struct it is what the
/// attribute expands to, and a module gets its items.
pub proof fn ley_volcado(args: Seq<char>, item: Seq<char>, kind: SimKind)
    requires
        dispatch_spec(args, item, kind).volcado is Some,
    ensures
        ({
            let e = dispatch_spec(args, item, kind);
            let codigo = e.volcado->0.codigo;
            match pedido(args, item, kind)->Ok_0.1 {
                None => e.salida == codigo,
                Some(m) => match syn_file(codigo) {
                    Ok(nuevos) => e.salida == modulo_con(m, nuevos),
                    Err(error) => e.salida == syn_compile_error(error),
                },
            }
        }),
{
}

/// Two concatenations, one behind the other.
pub proof fn lemma_junta_mas(a: Seq<Seq<char>>, b: Seq<Seq<char>>)
    ensures
        junta(a + b) == junta(a) + junta(b),
    decreases b.len(),
{
    if b.len() == 0 {
        assert(a + b =~= a);
        assert(junta(a) + junta(b) =~= junta(a));
    } else {
        assert((a + b).drop_last() =~= a + b.drop_last());
        lemma_junta_mas(a, b.drop_last());
        assert(junta(a + b) =~= junta(a) + junta(b));
    }
}

/// A module keeps its own items, and the generated ones come behind them: it is the module that
/// had them all from the start.
pub proof fn ley_modulo(m: ModTextView, items: Seq<Seq<char>>, nuevos: Seq<Seq<char>>)
    requires
        m.items == Some(items),
    ensures
        modulo_con(m, nuevos) == modulo_con(
            ModTextView { items: Some(items + nuevos), ..m },
            Seq::empty(),
        ),
{
    let a = Seq::new(items.len(), |i: int| items[i] + "\n"@);
    let b = Seq::new(nuevos.len(), |i: int| nuevos[i] + "\n"@);
    let todos = items + nuevos;
    assert(Seq::new(todos.len(), |i: int| todos[i] + "\n"@) =~= a + b);
    lemma_junta_mas(a, b);
    assert(renglones(Seq::empty()) =~= Seq::empty());
    assert(modulo_con(m, nuevos) =~= modulo_con(
        ModTextView { items: Some(todos), ..m },
        Seq::empty(),
    ));
}

}
