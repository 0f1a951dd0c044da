//! The attributes themselves: from the text of their arguments and of their item to the text
//! that takes the item's place.

use crate::error::{vista, Error, ErrorView};
use crate::expansion::{
    args_spec, expand_mod, expand_mod_spec, expand_struct, expand_struct_spec, MacroArgs,
};
use crate::genera::{gen, gen_spec, reloj, reloj_de};
use crate::interfaz::{
    InPort, InPortView, OutPort, OutPortView, OutVar, OutVarView, SimKind, Spec, SpecView,
};
use crate::lectura::{
    cuerpo_leido, decl_leida, error_de_compilacion, es_identificador, lee_cuerpo, lee_decl,
    parte_archivo, parte_args, parte_mod, syn_args, syn_compile_error, syn_file, syn_ident, syn_mod,
    ModText, ModTextView,
};
use crate::texto::{junta, lemma_junta_toma, pascal, pascal_spec, une};
use vstd::prelude::*;
use vstd::string::*;

verus! {

/// The interface that an attribute asks for, and its item, if that is a module.
pub open spec fn pedido(args: Seq<char>, item: Seq<char>, kind: SimKind) -> Result<
    (SpecView, Option<ModTextView>),
    ErrorView,
> {
    match syn_args(args) {
        Err(e) => Err(ErrorView::Sintaxis(e)),
        Ok(pares) => match args_spec(pares) {
            Err(e) => Err(e),
            Ok(a) => match syn_mod(item) {
                Ok(m) => match expand_mod_spec(a, cuerpo_leido(m), kind) {
                    Err(e) => Err(e),
                    Ok(s) => Ok((s, Some(m))),
                },
                Err(_) => match decl_leida(item) {
                    Err(e) => Err(ErrorView::Sintaxis(e)),
                    Ok(d) => match expand_struct_spec(a, d, kind) {
                        Err(e) => Err(e),
                        Ok(s) => Ok((s, None)),
                    },
                },
            },
        },
    }
}

/// The interface that an attribute asks for, and its item, if that is a module. An item that is
/// not a module has to be a struct.
pub fn lee_pedido(args: &str, item: &str, kind: SimKind) -> (r: Result<
    (Spec, Option<ModText>),
    Error,
>)
    ensures
        vista(r) == pedido(args@, item@, kind),
{
    let pares = match parte_args(args) {
        Err(e) => {
            return Err(Error::Sintaxis(e));
        },
        Ok(pares) => pares,
    };
    let a = match MacroArgs::parse(pares) {
        Err(e) => {
            return Err(e);
        },
        Ok(a) => a,
    };
    match parte_mod(item) {
        Ok(m) => match expand_mod(&a, &lee_cuerpo(&m), kind) {
            Err(e) => Err(e),
            Ok(s) => Ok((s, Some(m))),
        },
        Err(_) => match lee_decl(item) {
            Err(e) => Err(Error::Sintaxis(e)),
            Ok(d) => match expand_struct(&a, &d, kind) {
                Err(e) => Err(e),
                Ok(s) => Ok((s, None)),
            },
        },
    }
}

/// The variant of the value references that stands for an input's clock.
pub open spec fn variante_de(p: InPortView) -> Seq<char> {
    pascal_spec(reloj_de(p.field))
}

/// The first input whose clock has no identifier for a variant, by the name it would have.
pub open spec fn variante_invalida(ps: Seq<InPortView>) -> Option<Seq<char>>
    decreases ps.len(),
{
    if ps.len() == 0 {
        None
    } else if !syn_ident(variante_de(ps[0])) {
        Some(variante_de(ps[0]))
    } else {
        variante_invalida(ps.drop_first())
    }
}

/// The first variable whose name is not an identifier.
pub open spec fn variable_invalida(vs: Seq<OutVarView>) -> Option<Seq<char>>
    decreases vs.len(),
{
    if vs.len() == 0 {
        None
    } else if !syn_ident(vs[0].field) {
        Some(vs[0].field)
    } else {
        variable_invalida(vs.drop_first())
    }
}

/// The first variable of the output ports whose name is not an identifier.
pub open spec fn salida_invalida(ps: Seq<OutPortView>) -> Option<Seq<char>>
    decreases ps.len(),
{
    if ps.len() == 0 {
        None
    } else {
        match variable_invalida(ps[0].vars) {
            Some(n) => Some(n),
            None => salida_invalida(ps.drop_first()),
        }
    }
}

/// The first name of an interface that the generated code could not use as an identifier.
pub open spec fn nombre_invalido(s: SpecView) -> Option<Seq<char>> {
    match variante_invalida(s.in_ports) {
        Some(n) => Some(n),
        None => salida_invalida(s.out_ports),
    }
}

/// The first input whose clock has no identifier for a variant.
fn busca_variante(ps: &Vec<InPort>) -> (r: Option<String>)
    ensures
        r.deep_view() == variante_invalida(ps.deep_view()),
{
    let ghost pv = ps.deep_view();
    assert(pv.skip(0) =~= pv);
    let mut i: usize = 0;
    while i < ps.len()
        invariant
            i <= ps.len(),
            pv == ps.deep_view(),
            variante_invalida(pv) == variante_invalida(pv.skip(i as int)),
        decreases ps.len() - i,
    {
        proof {
            assert(pv.skip(i as int)[0] == ps[i as int].deep_view());
            assert(pv.skip(i as int).drop_first() =~= pv.skip(i + 1));
        }
        let n = pascal(reloj(ps[i].field.as_str()).as_str());
        if !es_identificador(n.as_str()) {
            return Some(n);
        }
        i += 1;
    }
    None
}

/// The first variable whose name is not an identifier.
fn busca_variable(vs: &Vec<OutVar>) -> (r: Option<String>)
    ensures
        r.deep_view() == variable_invalida(vs.deep_view()),
{
    let ghost vv = vs.deep_view();
    assert(vv.skip(0) =~= vv);
    let mut i: usize = 0;
    while i < vs.len()
        invariant
            i <= vs.len(),
            vv == vs.deep_view(),
            variable_invalida(vv) == variable_invalida(vv.skip(i as int)),
        decreases vs.len() - i,
    {
        proof {
            assert(vv.skip(i as int)[0] == vs[i as int].deep_view());
            assert(vv.skip(i as int).drop_first() =~= vv.skip(i + 1));
        }
        if !es_identificador(vs[i].field.as_str()) {
            return Some(vs[i].field.clone());
        }
        i += 1;
    }
    None
}

/// The first variable of the output ports whose name is not an identifier.
fn busca_salida(ps: &Vec<OutPort>) -> (r: Option<String>)
    ensures
        r.deep_view() == salida_invalida(ps.deep_view()),
{
    let ghost pv = ps.deep_view();
    assert(pv.skip(0) =~= pv);
    let mut i: usize = 0;
    while i < ps.len()
        invariant
            i <= ps.len(),
            pv == ps.deep_view(),
            salida_invalida(pv) == salida_invalida(pv.skip(i as int)),
        decreases ps.len() - i,
    {
        proof {
            assert(pv.skip(i as int)[0] == ps[i as int].deep_view());
            assert(pv.skip(i as int).drop_first() =~= pv.skip(i + 1));
        }
        if let Some(n) = busca_variable(&ps[i].vars) {
            return Some(n);
        }
        i += 1;
    }
    None
}

/// The first name of an interface that the generated code could not use as an identifier.
pub fn busca_invalido(s: &Spec) -> (r: Option<String>)
    ensures
        r.deep_view() == nombre_invalido(s.deep_view()),
{
    match busca_variante(&s.in_ports) {
        Some(n) => Some(n),
        None => busca_salida(&s.out_ports),
    }
}

/// Generated code, by the name of its FMU.
pub struct Volcado {
    pub name: String,
    pub codigo: String,
}

pub struct VolcadoView {
    pub name: Seq<char>,
    pub codigo: Seq<char>,
}

impl DeepView for Volcado {
    type V = VolcadoView;

    open spec fn deep_view(&self) -> VolcadoView {
        VolcadoView { name: self.name@, codigo: self.codigo@ }
    }
}

/// What an attribute expands to: the text that takes its item's place, and the generated code,
/// if it came that far.
pub struct Expansion {
    pub salida: String,
    pub volcado: Option<Volcado>,
}

pub struct ExpansionView {
    pub salida: Seq<char>,
    pub volcado: Option<VolcadoView>,
}

impl DeepView for Expansion {
    type V = ExpansionView;

    open spec fn deep_view(&self) -> ExpansionView {
        ExpansionView { salida: self.salida@, volcado: self.volcado.deep_view() }
    }
}

/// The expansion of a request that fails: a compile error with the message.
pub open spec fn expansion_fallida(e: ErrorView) -> ExpansionView {
    ExpansionView { salida: syn_compile_error(e.texto()), volcado: None }
}

/// An attribute of a module on a line, if it is of the style.
pub open spec fn atributo(a: (bool, Seq<char>), interno: bool) -> Seq<char> {
    if a.0 == interno {
        a.1 + "\n"@
    } else {
        Seq::empty()
    }
}

/// The attributes of a module of one style, each on a line.
pub open spec fn atributos(attrs: Seq<(bool, Seq<char>)>, interno: bool) -> Seq<char> {
    junta(Seq::new(attrs.len(), |i: int| atributo(attrs[i], interno)))
}

/// Items, each on a line.
pub open spec fn renglones(items: Seq<Seq<char>>) -> Seq<char> {
    junta(Seq::new(items.len(), |i: int| items[i] + "\n"@))
}

/// A module with some items behind those of its body.
pub open spec fn modulo_con(m: ModTextView, nuevos: Seq<Seq<char>>) -> Seq<char> {
    let antes = match m.items {
        Some(ts) => ts,
        None => Seq::empty(),
    };
    atributos(m.attrs, false) + m.vis + " "@ + m.unsafety + " mod "@ + m.ident + " {\n"@
        + atributos(m.attrs, true) + renglones(antes) + renglones(nuevos) + "}\n"@
}

/// The attributes of a module of one style.
fn escribe_atributos(attrs: &Vec<(bool, String)>, interno: bool) -> (r: String)
    ensures
        r@ == atributos(attrs.deep_view(), interno),
{
    let ghost av = attrs.deep_view();
    let ghost piezas = Seq::new(av.len(), |i: int| atributo(av[i], interno));
    let mut out = String::new();
    assert(piezas.take(0) =~= Seq::empty());
    let mut i: usize = 0;
    while i < attrs.len()
        invariant
            i <= attrs.len(),
            av == attrs.deep_view(),
            piezas == Seq::new(av.len(), |i: int| atributo(av[i], interno)),
            out@ == junta(piezas.take(i as int)),
        decreases attrs.len() - i,
    {
        proof {
            lemma_junta_toma(piezas, i as int);
            assert(av[i as int] == attrs[i as int].deep_view());
        }
        if attrs[i].0 == interno {
            out.append(une(attrs[i].1.as_str(), "\n").as_str());
        }
        i += 1;
    }
    assert(piezas.take(piezas.len() as int) =~= piezas);
    out
}

/// Items, each on a line.
fn escribe_renglones(items: &Vec<String>) -> (r: String)
    ensures
        r@ == renglones(items.deep_view()),
{
    let ghost iv = items.deep_view();
    let ghost piezas = Seq::new(iv.len(), |i: int| iv[i] + "\n"@);
    let mut out = String::new();
    assert(piezas.take(0) =~= Seq::empty());
    let mut i: usize = 0;
    while i < items.len()
        invariant
            i <= items.len(),
            iv == items.deep_view(),
            piezas == Seq::new(iv.len(), |i: int| iv[i] + "\n"@),
            out@ == junta(piezas.take(i as int)),
        decreases items.len() - i,
    {
        proof {
            lemma_junta_toma(piezas, i as int);
        }
        out.append(une(items[i].as_str(), "\n").as_str());
        i += 1;
    }
    assert(piezas.take(piezas.len() as int) =~= piezas);
    out
}

/// Writes a module with some items behind those of its body.
pub fn inserta(m: &ModText, nuevos: &Vec<String>) -> (r: String)
    ensures
        r@ == modulo_con(m.deep_view(), nuevos.deep_view()),
{
    let mut s = escribe_atributos(&m.attrs, false);
    s.append(m.vis.as_str());
    s.append(" ");
    s.append(m.unsafety.as_str());
    s.append(" mod ");
    s.append(m.ident.as_str());
    s.append(" {\n");
    s.append(escribe_atributos(&m.attrs, true).as_str());
    if let Some(ts) = &m.items {
        s.append(escribe_renglones(ts).as_str());
    }
    s.append(escribe_renglones(nuevos).as_str());
    s.append("}\n");
    proof {
        assert(renglones(Seq::empty()) =~= Seq::empty());
        assert(s@ =~= modulo_con(m.deep_view(), nuevos.deep_view()));
    }
    s
}

/// The expansion for an interface: a module gets the generated items behind its own, a struct is
/// replaced by the generated code.
pub open spec fn expansion_de(s: SpecView, modulo: Option<ModTextView>) -> ExpansionView {
    match nombre_invalido(s) {
        Some(n) => expansion_fallida(ErrorView::NoEsIdentificador(n)),
        None => ExpansionView {
            salida: match modulo {
                Some(m) => match syn_file(gen_spec(s)) {
                    Ok(nuevos) => modulo_con(m, nuevos),
                    Err(e) => syn_compile_error(e),
                },
                None => gen_spec(s),
            },
            volcado: Some(VolcadoView { name: s.name, codigo: gen_spec(s) }),
        },
    }
}

/// The expansion of an attribute.
pub open spec fn dispatch_spec(args: Seq<char>, item: Seq<char>, kind: SimKind) -> ExpansionView {
    match pedido(args, item, kind) {
        Err(e) => expansion_fallida(e),
        Ok((s, modulo)) => expansion_de(s, modulo),
    }
}

/// The expansion of a request that fails.
fn falla(e: &Error) -> (r: Expansion)
    ensures
        r.deep_view() == expansion_fallida(e.deep_view()),
{
    Expansion { salida: error_de_compilacion(e.mensaje().as_str()), volcado: None }
}

/// The expansion for an interface.
pub fn expande(s: Spec, modulo: Option<ModText>) -> (r: Expansion)
    ensures
        r.deep_view() == expansion_de(s.deep_view(), modulo.deep_view()),
{
    if let Some(n) = busca_invalido(&s) {
        return falla(&Error::NoEsIdentificador(n));
    }
    let codigo = gen(&s);
    let salida = match &modulo {
        Some(m) => match parte_archivo(codigo.as_str()) {
            Ok(nuevos) => inserta(m, &nuevos),
            Err(e) => error_de_compilacion(e.as_str()),
        },
        None => codigo.clone(),
    };
    Expansion { salida, volcado: Some(Volcado { name: s.name, codigo }) }
}

/// Expands an attribute over its item, a module that holds the model or a struct that declares
/// the interface.
pub fn dispatch(args: &str, item: &str, kind: SimKind) -> (r: Expansion)
    ensures
        r.deep_view() == dispatch_spec(args@, item@, kind),
{
    match lee_pedido(args, item, kind) {
        Err(e) => falla(&e),
        Ok((s, modulo)) => expande(s, modulo),
    }
}

/// Generates the FMI wrapper of an atomic DEVS model (`impl xdevs::Atomic`).
pub fn atomic2fmu(args: &str, item: &str) -> (r: Expansion)
    ensures
        r.deep_view() == dispatch_spec(args@, item@, SimKind::Atomic),
{
    dispatch(args, item, SimKind::Atomic)
}

/// Generates the FMI wrapper of a coupled DEVS model (`impl xdevs::Coupled`): the same as that
/// of an atomic one, but driven by a coordinator.
pub fn coupled2fmu(args: &str, item: &str) -> (r: Expansion)
    ensures
        r.deep_view() == dispatch_spec(args@, item@, SimKind::Coupled),
{
    dispatch(args, item, SimKind::Coupled)
}

/// What the head of a file of generated code says behind the name of its FMU.
pub const AVISO: &'static str = "` — NO editar (se regenera al compilar).\n\
    // Este es el \"código FMI\" que la macro produce a partir del modelo DEVS,\n\
    // el paso intermedio antes de `cargo fmi bundle`.\n\n";

/// What is written at the head of a file of generated code.
pub open spec fn cabecera(name: Seq<char>) -> Seq<char> {
    "// GENERADO por #[atomic2fmu] para `"@ + name + AVISO@
}

/// Generated code as it is to be shown: formatted, or as it stands where it could not be
/// formatted.
pub fn codigo_mostrado(codigo: &str, formateado: Option<String>) -> (r: String)
    ensures
        r@ == (match formateado {
            Some(f) => f@,
            None => codigo@,
        }),
{
    match formateado {
        Some(f) => f,
        None => codigo.to_owned(),
    }
}

/// The name and the contents of the file that generated code is written to, given the code as it
/// is to be shown.
pub fn archivo_generado(name: &str, codigo: &str) -> (r: (String, String))
    ensures
        r.0@ == name@ + ".rs"@,
        r.1@ == cabecera(name@) + codigo@,
{
    let mut s = une("// GENERADO por #[atomic2fmu] para `", name);
    s.append(AVISO);
    s.append(codigo);
    (une(name, ".rs"), s)
}

}
