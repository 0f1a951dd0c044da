//! What holds of the way from text to what is read of it, and from a request to its answer.

use crate::error::{ErrorView, Regla};
use crate::expansion::{args_spec, expand_mod_spec, expand_struct_spec};
use crate::interfaz::{InPortView, OutPortView, OutVarView, SimKind, SpecView};
use crate::lectura::{
    attr_leido, bolsa_leida, cuerpo_leido, dato_leido, decl_leida, item_leido, puerto_leido,
    syn_args, syn_attr, syn_enum, syn_ident, syn_impl, syn_len, syn_metas, syn_mod, syn_segments,
    syn_struct, syn_type, tipos_leidos, ModTextView, TypePartsView,
};
use crate::macros::{
    atributo, atributos, modulo_con, nombre_invalido, pedido, renglones, salida_invalida,
    variable_invalida, variante_invalida,
};
use crate::sintaxis::{AssocTypeView, AttrArgsView, BagTypeView, ItemView, PathTypeView};
use crate::texto::{pascal_spec, sin_raw};
use vstd::prelude::*;

verus! {

/// Whether a path is the one that its text parses to: the same segments, and of each segment the
/// same arguments, each one a type read in its turn or nothing.
pub open spec fn es_ruta_de(p: PathTypeView, text: Seq<char>) -> bool {
    &&& p.text == text
    &&& p.segments.len() == syn_segments(text).len()
    &&& forall|i: int|
        0 <= i < p.segments.len() ==> {
            let leido = syn_segments(text)[i];
            &&& (#[trigger] p.segments[i]).ident == leido.0
            &&& p.segments[i].args.len() == leido.1.len()
            &&& forall|k: int|
                0 <= k < leido.1.len() ==> (#[trigger] p.segments[i].args[k]) == match leido.1[k] {
                    Some(t) => Some(dato_leido(t)),
                    None => None,
                }
        }
}

/// A type keeps its text. Where a port's data can stand, a path keeps its identifiers; where a
/// port or a bag can, its segments; a bag keeps the elements of a tuple, and the element and the
/// length of an array.
pub proof fn ley_tipo_leido(text: Seq<char>)
    ensures
        dato_leido(text).text == text,
        puerto_leido(text).text == text,
        match syn_type(text) {
            TypePartsView::Path(p) => {
                &&& dato_leido(text).idents matches Some(ids)
                &&& ids.len() == syn_segments(p).len()
                &&& forall|i: int|
                    0 <= i < ids.len() ==> #[trigger] ids[i] == syn_segments(p)[i].0
                &&& puerto_leido(text).path matches Some(q)
                &&& es_ruta_de(q, p)
                &&& bolsa_leida(text) == BagTypeView::Path(q)
            },
            TypePartsView::Tuple(ts) => {
                &&& dato_leido(text).idents is None
                &&& puerto_leido(text).path is None
                &&& bolsa_leida(text) matches BagTypeView::Tuple(es)
                &&& es.len() == ts.len()
                &&& forall|i: int| 0 <= i < ts.len() ==> #[trigger] es[i] == puerto_leido(ts[i])
            },
            TypePartsView::Array(e, n) => {
                &&& dato_leido(text).idents is None
                &&& puerto_leido(text).path is None
                &&& bolsa_leida(text) == BagTypeView::Array(puerto_leido(e), syn_len(n))
            },
            TypePartsView::Other => {
                &&& dato_leido(text).idents is None
                &&& puerto_leido(text).path is None
                &&& bolsa_leida(text) is Other
            },
        },
{
}

/// Of the items of an `impl` the associated types are kept, in order, and nothing else.
pub proof fn ley_tipos_leidos(
    types: Seq<Option<(Seq<char>, Seq<char>)>>,
    t: Option<(Seq<char>, Seq<char>)>,
)
    ensures
        tipos_leidos(Seq::empty()).len() == 0,
        tipos_leidos(types.push(t)) == match t {
            None => tipos_leidos(types),
            Some((n, x)) => tipos_leidos(types).push(
                AssocTypeView { ident: n, ty: bolsa_leida(x) },
            ),
        },
{
    assert(types.push(t).drop_last() =~= types);
}

/// An item is an `impl`, a struct, an enum or something else, as it parses; what is kept of it is
/// what it parses to.
pub proof fn ley_item_leido(text: Seq<char>)
    ensures
        syn_impl(text) matches Some((tr, ty, types)) ==> item_leido(text) == ItemView::Impl(
            tr,
            puerto_leido(ty),
            tipos_leidos(types),
        ),
        syn_impl(text) is None ==> match syn_struct(text) {
            Ok((n, _, fs)) => {
                &&& item_leido(text) matches ItemView::Struct(m, fields)
                &&& m == n
                &&& fields.len() == fs.len()
                &&& forall|i: int|
                    0 <= i < fs.len() ==> (#[trigger] fields[i]).ident == fs[i].0 && fields[i].ty
                        == puerto_leido(fs[i].1)
            },
            Err(_) => match syn_enum(text) {
                Some((n, vs)) => item_leido(text) == ItemView::Enum(n, vs),
                None => item_leido(text) is Other,
            },
        },
{
}

/// The body of a module is its items, each one read, in order; a module without one has none.
pub proof fn ley_cuerpo_leido(m: ModTextView)
    ensures
        m.items is None ==> cuerpo_leido(m) is None,
        m.items matches Some(ts) ==> {
            &&& cuerpo_leido(m) matches Some(items)
            &&& items.len() == ts.len()
            &&& forall|i: int| 0 <= i < ts.len() ==> #[trigger] items[i] == item_leido(ts[i])
        },
{
}

/// A declared interface keeps the name and the visibility of its struct, and of each field, in
/// order, the name, the type and all the attributes; or it does not parse, with the parser's
/// message.
pub proof fn ley_decl_leida(text: Seq<char>)
    ensures
        match syn_struct(text) {
            Err(e) => decl_leida(text) is Err && decl_leida(text)->Err_0 == e,
            Ok((n, vis, fs)) => {
                &&& decl_leida(text) matches Ok(d)
                &&& d.ident == n
                &&& d.vis == vis
                &&& d.fields.len() == fs.len()
                &&& forall|i: int|
                    0 <= i < fs.len() ==> {
                        &&& (#[trigger] d.fields[i]).ident == fs[i].0
                        &&& d.fields[i].ty == dato_leido(fs[i].1)
                        &&& d.fields[i].attrs.len() == fs[i].2.len()
                        &&& forall|k: int|
                            0 <= k < fs[i].2.len() ==> #[trigger] d.fields[i].attrs[k]
                                == attr_leido(fs[i].2[k])
                    }
            },
        },
{
}

/// An attribute keeps its name. The arguments of `#[input(...)]` and `#[output(...)]` are read,
/// or do not parse, with the parser's message; those of any other attribute are passed over.
pub proof fn ley_attr_leido(text: Seq<char>)
    ensures
        match syn_attr(text) {
            None => attr_leido(text).ident is None && attr_leido(text).args is Nothing,
            Some((id, lista)) => {
                let a = attr_leido(text);
                &&& a.ident == id
                &&& if id == Some("input"@) || id == Some("output"@) {
                    match lista {
                        None => a.args is Nothing,
                        Some(t) => match syn_metas(t) {
                            Ok(ms) => a.args == AttrArgsView::List(ms),
                            Err(e) => a.args == AttrArgsView::Bad(e),
                        },
                    }
                } else {
                    a.args is Nothing
                }
            },
        },
{
}

/// A request is refused for its arguments first, whether they do not parse or are wrong. Then a
/// module asks for the interface of its model, and what does not parse as one has to be a struct,
/// which asks for the interface that it declares.
pub proof fn ley_pedido(args: Seq<char>, item: Seq<char>, kind: SimKind)
    ensures
        ({
            let r = pedido(args, item, kind);
            match syn_args(args) {
                Err(e) => r is Err && r->Err_0 == ErrorView::Sintaxis(e),
                Ok(ps) => match args_spec(ps) {
                    Err(e) => r is Err && r->Err_0 == e,
                    Ok(a) => match syn_mod(item) {
                        Ok(m) => match expand_mod_spec(a, cuerpo_leido(m), kind) {
                            Err(e) => r is Err && r->Err_0 == e,
                            Ok(s) => r is Ok && r->Ok_0.0 == s && r->Ok_0.1 == Some(m),
                        },
                        Err(_) => match decl_leida(item) {
                            Err(e) => r is Err && r->Err_0 == ErrorView::Sintaxis(e),
                            Ok(d) => match expand_struct_spec(a, d, kind) {
                                Err(e) => r is Err && r->Err_0 == e,
                                Ok(s) => r is Ok && r->Ok_0.0 == s && r->Ok_0.1 is None,
                            },
                        },
                    },
                },
            }
        }),
{
}

/// The name that stands for an input's clock among the value references.
pub open spec fn nombre_de_reloj(p: InPortView) -> Seq<char> {
    pascal_spec(sin_raw(p.field) + "_ev"@)
}

/// The first input, at place `k`, whose name is no identifier.
proof fn lemma_variante(ps: Seq<InPortView>, k: int)
    requires
        0 <= k <= ps.len(),
        forall|j: int| 0 <= j < k ==> syn_ident(nombre_de_reloj(#[trigger] ps[j])),
        k < ps.len() ==> !syn_ident(nombre_de_reloj(ps[k])),
    ensures
        variante_invalida(ps) == if k < ps.len() {
            Some(nombre_de_reloj(ps[k]))
        } else {
            None
        },
    decreases k,
{
    if k > 0 {
        let resto = ps.drop_first();
        assert(syn_ident(nombre_de_reloj(ps[0])));
        assert forall|j: int| 0 <= j < k - 1 implies syn_ident(
            nombre_de_reloj(#[trigger] resto[j]),
        ) by {
            assert(resto[j] == ps[j + 1]);
        }
        lemma_variante(resto, k - 1);
    }
}

/// The first variable whose name is no identifier.
proof fn lemma_variable(vs: Seq<OutVarView>)
    ensures
        variable_invalida(vs) is None <==> (forall|v: int|
            0 <= v < vs.len() ==> syn_ident((#[trigger] vs[v]).field)),
        variable_invalida(vs) matches Some(n) ==> !syn_ident(n) && exists|v: int|
            {
                &&& 0 <= v < vs.len()
                &&& (#[trigger] vs[v]).field == n
                &&& forall|j: int| 0 <= j < v ==> syn_ident((#[trigger] vs[j]).field)
            },
    decreases vs.len(),
{
    if vs.len() > 0 {
        let resto = vs.drop_first();
        if !syn_ident(vs[0].field) {
            assert(vs[0].field == variable_invalida(vs)->0);
        } else {
            lemma_variable(resto);
            match variable_invalida(resto) {
                None => {
                    assert forall|v: int| 0 <= v < vs.len() implies syn_ident(
                        (#[trigger] vs[v]).field,
                    ) by {
                        if v > 0 {
                            assert(resto[v - 1] == vs[v]);
                        }
                    }
                },
                Some(n) => {
                    let v = choose|v: int|
                        {
                            &&& 0 <= v < resto.len()
                            &&& (#[trigger] resto[v]).field == n
                            &&& forall|j: int| 0 <= j < v ==> syn_ident((#[trigger] resto[j]).field)
                        };
                    assert(vs[v + 1] == resto[v]);
                    assert forall|j: int| 0 <= j < v + 1 implies syn_ident(
                        (#[trigger] vs[j]).field,
                    ) by {
                        if j > 0 {
                            assert(resto[j - 1] == vs[j]);
                        }
                    }
                },
            }
        }
    }
}

/// The first variable of the output ports whose name is no identifier.
proof fn lemma_salida(ps: Seq<OutPortView>)
    ensures
        salida_invalida(ps) is None <==> (forall|p: int, v: int|
            #![trigger ps[p].vars[v]]
            0 <= p < ps.len() && 0 <= v < ps[p].vars.len() ==> syn_ident(ps[p].vars[v].field)),
        salida_invalida(ps) matches Some(n) ==> !syn_ident(n) && exists|p: int, v: int|
            #![trigger ps[p].vars[v]]
            0 <= p < ps.len() && 0 <= v < ps[p].vars.len() && ps[p].vars[v].field == n,
    decreases ps.len(),
{
    if ps.len() > 0 {
        let resto = ps.drop_first();
        let vs = ps[0].vars;
        lemma_variable(vs);
        lemma_salida(resto);
        match variable_invalida(vs) {
            Some(n) => {
                let v = choose|v: int| 0 <= v < vs.len() && (#[trigger] vs[v]).field == n;
                assert(ps[0].vars[v].field == n);
            },
            None => match salida_invalida(resto) {
                None => {
                    assert forall|p: int, v: int|
                        #![trigger ps[p].vars[v]]
                        0 <= p < ps.len() && 0 <= v < ps[p].vars.len() implies syn_ident(
                        ps[p].vars[v].field,
                    ) by {
                        if p > 0 {
                            assert(resto[p - 1].vars[v] == ps[p].vars[v]);
                        } else {
                            assert(vs[v] == ps[p].vars[v]);
                        }
                    }
                },
                Some(n) => {
                    let (p, v) = choose|p: int, v: int|
                        #![trigger resto[p].vars[v]]
                        0 <= p < resto.len() && 0 <= v < resto[p].vars.len()
                            && resto[p].vars[v].field == n;
                    assert(ps[p + 1].vars[v].field == n);
                },
            },
        }
    }
}

/// An interface has no name at fault exactly when the name of each input's clock among the value
/// references and the name of each output variable are identifiers; and the name at fault is one
/// of these, that of an input's clock before that of an output variable.
pub proof fn ley_nombres(s: SpecView)
    ensures
        nombre_invalido(s) is None <==> {
            &&& forall|i: int|
                0 <= i < s.in_ports.len() ==> syn_ident(nombre_de_reloj(#[trigger] s.in_ports[i]))
            &&& forall|p: int, v: int|
                #![trigger s.out_ports[p].vars[v]]
                0 <= p < s.out_ports.len() && 0 <= v < s.out_ports[p].vars.len() ==> syn_ident(
                    s.out_ports[p].vars[v].field,
                )
        },
        nombre_invalido(s) matches Some(n) ==> {
            &&& !syn_ident(n)
            &&& {
                ||| exists|i: int|
                    {
                        &&& 0 <= i < s.in_ports.len()
                        &&& nombre_de_reloj(#[trigger] s.in_ports[i]) == n
                        &&& forall|j: int|
                            0 <= j < i ==> syn_ident(nombre_de_reloj(#[trigger] s.in_ports[j]))
                    }
                ||| {
                    &&& forall|i: int|
                        0 <= i < s.in_ports.len() ==> syn_ident(
                            nombre_de_reloj(#[trigger] s.in_ports[i]),
                        )
                    &&& exists|p: int, v: int|
                        #![trigger s.out_ports[p].vars[v]]
                        0 <= p < s.out_ports.len() && 0 <= v < s.out_ports[p].vars.len()
                            && s.out_ports[p].vars[v].field == n
                }
            }
        },
{
    lemma_salida(s.out_ports);
    let k = lemma_primera(s.in_ports);
    lemma_variante(s.in_ports, k);
    if k < s.in_ports.len() {
        assert(nombre_de_reloj(s.in_ports[k]) == nombre_invalido(s)->0);
    }
}

/// The place of the first input whose name is no identifier, or the number of inputs.
proof fn lemma_primera(ps: Seq<InPortView>) -> (k: int)
    ensures
        0 <= k <= ps.len(),
        forall|j: int| 0 <= j < k ==> syn_ident(nombre_de_reloj(#[trigger] ps[j])),
        k < ps.len() ==> !syn_ident(nombre_de_reloj(ps[k])),
    decreases ps.len(),
{
    if ps.len() == 0 {
        0
    } else {
        let resto = ps.drop_last();
        let k = lemma_primera(resto);
        assert(forall|j: int| 0 <= j < resto.len() ==> #[trigger] ps[j] == resto[j]);
        if k < resto.len() {
            k
        } else if !syn_ident(nombre_de_reloj(ps.last())) {
            k
        } else {
            k + 1
        }
    }
}

/// The text of a module: its outer attributes, its visibility, `unsafe` if it is, its name, and
/// in its body its inner attributes, its own items and then the new ones. Each attribute and each
/// item has a line.
pub proof fn ley_texto_de_modulo(
    m: ModTextView,
    items: Seq<Seq<char>>,
    nuevos: Seq<Seq<char>>,
    a: (bool, Seq<char>),
    t: Seq<char>,
    interno: bool,
)
    requires
        m.items == Some(items),
    ensures
        modulo_con(m, nuevos) == atributos(m.attrs, false) + m.vis + " "@ + m.unsafety + " mod "@
            + m.ident + " {\n"@ + atributos(m.attrs, true) + renglones(items) + renglones(nuevos)
            + "}\n"@,
        atributos(Seq::empty(), interno) == Seq::<char>::empty(),
        atributos(m.attrs.push(a), interno) == atributos(m.attrs, interno) + (if a.0 == interno {
            a.1 + "\n"@
        } else {
            Seq::empty()
        }),
        renglones(Seq::empty()) == Seq::<char>::empty(),
        renglones(items.push(t)) == renglones(items) + (t + "\n"@),
{
    let v = m.attrs.push(a);
    let x = Seq::new(v.len(), |i: int| atributo(v[i], interno));
    assert(x.drop_last() =~= Seq::new(
        m.attrs.len(),
        |i: int| atributo(m.attrs[i], interno),
    ));
    let w = items.push(t);
    let y = Seq::new(w.len(), |i: int| w[i] + "\n"@);
    assert(y.drop_last() =~= Seq::new(items.len(), |i: int| items[i] + "\n"@));
    assert(atributos(Seq::empty(), interno) =~= Seq::<char>::empty());
    assert(renglones(Seq::empty()) =~= Seq::<char>::empty());
}

/// What a refusal says: the parser's own message, or the name that is at fault with the reason,
/// or the kind of component that was looked for.
pub proof fn ley_mensajes(t: Seq<char>, kind: SimKind)
    ensures
        ErrorView::Sintaxis(t).texto() == t,
        ErrorView::ClaveDesconocida(t).texto() == "clave desconocida `"@ + t
            + "` (se esperan `model`, `init`)"@,
        ErrorView::BolsaDesconocida(t).texto() == "no se pudo interpretar la bolsa `"@ + t
            + "`: no es `Port<...>`, ni tupla, ni array, ni un struct de puertos definido dentro del módulo"@,
        ErrorView::NoEsIdentificador(t).texto() == "`"@ + t + "` no es un identificador"@,
        ErrorView::Regla(Regla::SinComponente(kind)).texto()
            == "no se encontró `impl xdevs::Component for <Modelo>` con `type Kind = xdevs::"@ + (
        match kind {
            SimKind::Atomic => "AtomicKind"@,
            SimKind::Coupled => "CoupledKind"@,
        }) + "` dentro del módulo (el modelo DEVS entero debe estar DENTRO del `mod`)."@,
        forall|r: Regla| #[trigger] ErrorView::Regla(r).texto() == r.texto(),
{
}

}
