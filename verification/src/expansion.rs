//! From a model to its interface: the two forms of the attribute. Over a module the model is
//! read; over a struct the interface is declared.

use crate::error::{vista, Error, ErrorView, Regla};
use crate::interfaz::{
    Access, AccessView, InPort, InPortView, OutPort, OutPortView, OutVar, OutVarView, PortInfo,
    PortInfoView, SimKind, Spec, SpecTaOut, SpecTaOutView, SpecView,
};
use crate::listas::agrega;
use crate::puertos::{
    default_start, default_start_spec, extract_ports, extract_ports_spec, find_component,
    find_component_spec, find_enum_variants, has_impl_named, implementa, variantes_de,
};
use crate::sintaxis::{
    ArgPair, ArgPairView, Attr, AttrArgs, AttrArgsView, AttrView, DataType, DataTypeView, Decl,
    DeclField, DeclFieldView, DeclView, Item, ItemView, MetaArg, MetaArgView,
};
use crate::texto::{es, quita_raw, sin_raw, snake_spec, to_snake, une};
use vstd::prelude::*;
use vstd::string::*;

verus! {

/// The arguments of the attribute.
pub struct MacroArgs {
    /// The model's path.
    pub model: Option<String>,
    /// The expression that builds the model.
    pub init: Option<String>,
}

pub struct MacroArgsView {
    pub model: Option<Seq<char>>,
    pub init: Option<Seq<char>>,
}

impl DeepView for MacroArgs {
    type V = MacroArgsView;

    open spec fn deep_view(&self) -> MacroArgsView {
        MacroArgsView { model: self.model.deep_view(), init: self.init.deep_view() }
    }
}

/// The arguments after one more pair.
pub open spec fn con_par(a: MacroArgsView, p: ArgPairView) -> Result<MacroArgsView, ErrorView> {
    if p.key == Some("model"@) {
        match p.path {
            Some(path) => Ok(MacroArgsView { model: Some(path), ..a }),
            None => Err(ErrorView::Regla(Regla::ModelNoEsTipo)),
        }
    } else if p.key == Some("init"@) {
        Ok(MacroArgsView { init: Some(p.value), ..a })
    } else {
        Err(
            ErrorView::ClaveDesconocida(
                match p.key {
                    Some(k) => k,
                    None => Seq::empty(),
                },
            ),
        )
    }
}

/// The arguments after some more pairs: a later pair replaces an earlier one of the same key,
/// and the first pair that is wrong decides the error.
pub open spec fn con_pares(a: MacroArgsView, ps: Seq<ArgPairView>) -> Result<
    MacroArgsView,
    ErrorView,
>
    decreases ps.len(),
{
    if ps.len() == 0 {
        Ok(a)
    } else {
        match con_par(a, ps[0]) {
            Err(e) => Err(e),
            Ok(b) => con_pares(b, ps.drop_first()),
        }
    }
}

/// The arguments that some pairs give.
pub open spec fn args_spec(ps: Seq<ArgPairView>) -> Result<MacroArgsView, ErrorView> {
    con_pares(MacroArgsView { model: None, init: None }, ps)
}

impl MacroArgs {
    /// Reads the arguments from their pairs: `model = <path>` and `init = <expr>`.
    pub fn parse(pairs: Vec<ArgPair>) -> (r: Result<MacroArgs, Error>)
        ensures
            vista(r) == args_spec(pairs.deep_view()),
    {
        let ghost pv = pairs.deep_view();
        let mut a = MacroArgs { model: None, init: None };
        assert(pv.skip(0) =~= pv);
        let mut i: usize = 0;
        while i < pairs.len()
            invariant
                i <= pairs.len(),
                pv == pairs.deep_view(),
                args_spec(pv) == con_pares(a.deep_view(), pv.skip(i as int)),
            decreases pairs.len() - i,
        {
            let p = &pairs[i];
            proof {
                assert(pv.skip(i as int)[0] == p.deep_view());
                assert(pv.skip(i as int).drop_first() =~= pv.skip(i + 1));
                reveal_strlit("model");
                reveal_strlit("init");
                assert("model"@.len() != "init"@.len());
            }
            match &p.key {
                None => {
                    return Err(Error::ClaveDesconocida(String::new()));
                },
                Some(k) => {
                    if es(k, "model") {
                        match &p.path {
                            None => {
                                return Err(Error::Regla(Regla::ModelNoEsTipo));
                            },
                            Some(path) => {
                                a.model = Some(path.clone());
                            },
                        }
                    } else if es(k, "init") {
                        a.init = Some(p.value.clone());
                    } else {
                        return Err(Error::ClaveDesconocida(k.clone()));
                    }
                },
            }
            i += 1;
        }
        Ok(a)
    }
}

/// The input that a port of the input bag gives: one variable with the type of the port's data.
pub open spec fn entrada_de(p: PortInfoView) -> InPortView {
    InPortView {
        field: p.base_name,
        access: p.access,
        ty: p.data.text,
        start: default_start_spec(p.data),
    }
}

/// The conversion from an event to the variable of one variant: one for that variant, zero for
/// any other.
pub open spec fn conversion(data: Seq<char>, variant: Seq<char>) -> Seq<char> {
    "|__s: "@ + data + "| if __s == "@ + data + "::"@ + variant + " { 1.0 } else { 0.0 }"@
}

/// The variable of one variant of an enum. Where the model has several output ports, the port's
/// name goes before the variant's.
pub open spec fn variable_de(p: PortInfoView, variant: Seq<char>, unico: bool) -> OutVarView {
    OutVarView {
        field: if unico {
            snake_spec(variant)
        } else {
            p.base_name + "_"@ + snake_spec(variant)
        },
        from: Some(conversion(p.data.text, variant)),
        ty: "f64"@,
        start: "0.0"@,
    }
}

/// The output that a port of the output bag gives: a variable for each variant, where it carries
/// an enum of the module, and else a single variable with the type of the port's data.
pub open spec fn salida_de(p: PortInfoView, items: Seq<ItemView>, unico: bool) -> OutPortView {
    OutPortView {
        access: p.access,
        vars: match variantes_de(items, p.data) {
            Some(vs) => Seq::new(vs.len(), |i: int| variable_de(p, vs[i], unico)),
            None => seq![
                OutVarView {
                    field: p.base_name,
                    from: None,
                    ty: p.data.text,
                    start: default_start_spec(p.data),
                },
            ],
        },
    }
}

/// The interface of a model with its ports already read.
pub open spec fn interfaz_de(
    init: Option<Seq<char>>,
    model_ty: Seq<char>,
    path: Seq<char>,
    ident: Seq<char>,
    ins: Seq<PortInfoView>,
    outs: Seq<PortInfoView>,
    items: Seq<ItemView>,
    kind: SimKind,
) -> SpecView {
    SpecView {
        name: sin_raw(ident) + "Fmu"@,
        vis: "pub"@,
        kind,
        model_init: match init {
            Some(e) => e,
            None => "< "@ + path + " as ::core::default::Default>::default()"@,
        },
        model_ty,
        in_ports: Seq::new(ins.len(), |i: int| entrada_de(ins[i])),
        out_ports: Seq::new(outs.len(), |i: int| salida_de(outs[i], items, outs.len() == 1)),
        ta_outputs: Seq::empty(),
    }
}

/// The interface of the model inside a module, or the first rule that is broken.
pub open spec fn expand_mod_spec(
    args: MacroArgsView,
    contenido: Option<Seq<ItemView>>,
    kind: SimKind,
) -> Result<SpecView, ErrorView> {
    match contenido {
        None => Err(ErrorView::Regla(Regla::ModuloSinCuerpo)),
        Some(items) => match find_component_spec(items, kind) {
            None => Err(ErrorView::Regla(Regla::SinComponente(kind))),
            Some((model, input, output)) => if !exists|k: int|
                0 <= k < items.len() && implementa(#[trigger] items[k], kind.trait_name_spec()) {
                Err(ErrorView::Regla(Regla::SinTrait(kind)))
            } else {
                match model.path {
                    None => Err(ErrorView::Regla(Regla::ModeloNoNombrado)),
                    Some(path) => if path.segments.len() == 0 {
                        Err(ErrorView::Regla(Regla::ModeloSinNombre))
                    } else {
                        match extract_ports_spec(input, items, "input"@) {
                            Err(e) => Err(e),
                            Ok(ins) => match extract_ports_spec(output, items, "output"@) {
                                Err(e) => Err(e),
                                Ok(outs) => Ok(
                                    interfaz_de(
                                        args.init,
                                        model.text,
                                        path.text,
                                        path.segments.last().ident,
                                        ins,
                                        outs,
                                        items,
                                        kind,
                                    ),
                                ),
                            },
                        }
                    },
                }
            },
        },
    }
}

/// The inputs that the ports of the input bag give.
fn lee_entradas(ins: &Vec<PortInfo>) -> (r: Vec<InPort>)
    ensures
        r.deep_view() == Seq::new(
            ins.deep_view().len(),
            |i: int| entrada_de(ins.deep_view()[i]),
        ),
{
    let ghost todo = Seq::new(ins.deep_view().len(), |i: int| entrada_de(ins.deep_view()[i]));
    let mut v: Vec<InPort> = Vec::new();
    assert(v.deep_view() =~= todo.take(0));
    let mut i: usize = 0;
    while i < ins.len()
        invariant
            i <= ins.len(),
            todo == Seq::new(ins.deep_view().len(), |i: int| entrada_de(ins.deep_view()[i])),
            v.deep_view() == todo.take(i as int),
        decreases ins.len() - i,
    {
        let p = &ins[i];
        assert(ins.deep_view()[i as int] == p.deep_view());
        let x = InPort {
            field: p.base_name.clone(),
            access: p.access.copia(),
            ty: p.data.text.clone(),
            start: default_start(p.data),
        };
        agrega(&mut v, x);
        i += 1;
        assert(v.deep_view() =~= todo.take(i as int));
    }
    assert(todo.take(todo.len() as int) =~= todo);
    v
}

/// The output that a port of the output bag gives.
fn lee_salida(p: &PortInfo, items: &Vec<Item>, unico: bool) -> (r: OutPort)
    ensures
        r.deep_view() == salida_de(p.deep_view(), items.deep_view(), unico),
{
    let mut vars: Vec<OutVar> = Vec::new();
    match find_enum_variants(items, p.data) {
        Some(variants) => {
            let ghost pv = p.deep_view();
            let ghost vs = variants.deep_view();
            let ghost todo = Seq::new(vs.len(), |i: int| variable_de(pv, vs[i], unico));
            assert(vars.deep_view() =~= todo.take(0));
            let data = p.data.text.as_str();
            let mut i: usize = 0;
            while i < variants.len()
                invariant
                    i <= variants.len(),
                    pv == p.deep_view(),
                    vs == variants.deep_view(),
                    data@ == pv.data.text,
                    todo == Seq::new(vs.len(), |i: int| variable_de(pv, vs[i], unico)),
                    vars.deep_view() == todo.take(i as int),
                decreases variants.len() - i,
            {
                let v = variants[i].as_str();
                let snake = to_snake(v);
                let field = if unico {
                    snake
                } else {
                    une(p.base_name.as_str(), "_").concat(snake.as_str())
                };
                let mut from = une("|__s: ", data);
                from.append("| if __s == ");
                from.append(data);
                from.append("::");
                from.append(v);
                from.append(" { 1.0 } else { 0.0 }");
                let x = OutVar {
                    field,
                    from: Some(from),
                    ty: "f64".to_owned(),
                    start: "0.0".to_owned(),
                };
                assert(x.deep_view() == todo[i as int]);
                agrega(&mut vars, x);
                i += 1;
                assert(vars.deep_view() =~= todo.take(i as int));
            }
            assert(todo.take(todo.len() as int) =~= todo);
        },
        None => {
            let x = OutVar {
                field: p.base_name.clone(),
                from: None,
                ty: p.data.text.clone(),
                start: default_start(p.data),
            };
            let ghost xv = x.deep_view();
            agrega(&mut vars, x);
            assert(vars.deep_view() =~= seq![xv]);
        },
    }
    OutPort { access: p.access.copia(), vars }
}

/// The outputs that the ports of the output bag give.
fn lee_salidas(outs: &Vec<PortInfo>, items: &Vec<Item>) -> (r: Vec<OutPort>)
    ensures
        r.deep_view() == Seq::new(
            outs.deep_view().len(),
            |i: int|
                salida_de(
                    outs.deep_view()[i],
                    items.deep_view(),
                    outs.deep_view().len() == 1,
                ),
        ),
{
    let ghost ov = outs.deep_view();
    let ghost iv = items.deep_view();
    let ghost todo = Seq::new(ov.len(), |i: int| salida_de(ov[i], iv, ov.len() == 1));
    let mut v: Vec<OutPort> = Vec::new();
    assert(v.deep_view() =~= todo.take(0));
    let mut i: usize = 0;
    while i < outs.len()
        invariant
            i <= outs.len(),
            ov == outs.deep_view(),
            iv == items.deep_view(),
            todo == Seq::new(ov.len(), |i: int| salida_de(ov[i], iv, ov.len() == 1)),
            v.deep_view() == todo.take(i as int),
        decreases outs.len() - i,
    {
        let x = lee_salida(&outs[i], items, outs.len() == 1);
        assert(x.deep_view() == todo[i as int]);
        agrega(&mut v, x);
        i += 1;
        assert(v.deep_view() =~= todo.take(i as int));
    }
    assert(todo.take(todo.len() as int) =~= todo);
    v
}

/// Reads the interface of the model that a module holds.
pub fn expand_mod(args: &MacroArgs, contenido: &Option<Vec<Item>>, kind: SimKind) -> (r: Result<
    Spec,
    Error,
>)
    ensures
        vista(r) == expand_mod_spec(args.deep_view(), contenido.deep_view(), kind),
{
    let items = match contenido {
        None => {
            return Err(Error::Regla(Regla::ModuloSinCuerpo));
        },
        Some(items) => items,
    };
    let (model, input, output) = match find_component(items, kind) {
        None => {
            return Err(Error::Regla(Regla::SinComponente(kind)));
        },
        Some(c) => c,
    };
    if !has_impl_named(items, kind.trait_name()) {
        return Err(Error::Regla(Regla::SinTrait(kind)));
    }
    let path = match &model.path {
        None => {
            return Err(Error::Regla(Regla::ModeloNoNombrado));
        },
        Some(path) => path,
    };
    let n: usize = path.segments.len();
    if n == 0 {
        return Err(Error::Regla(Regla::ModeloSinNombre));
    }
    let ident = &path.segments[n - 1].ident;
    assert(path.segments[n - 1].deep_view() == path.deep_view().segments.last());
    let ins = match extract_ports(input, items, "input") {
        Err(e) => {
            return Err(e);
        },
        Ok(ins) => ins,
    };
    let outs = match extract_ports(output, items, "output") {
        Err(e) => {
            return Err(e);
        },
        Ok(outs) => outs,
    };
    let init = match &args.init {
        Some(e) => e.clone(),
        None => une("< ", path.text.as_str()).concat(
            " as ::core::default::Default>::default()",
        ),
    };
    let ta_outputs: Vec<SpecTaOut> = Vec::new();
    assert(ta_outputs.deep_view() =~= Seq::empty());
    Ok(
        Spec {
            name: quita_raw(ident.as_str()).concat("Fmu"),
            vis: "pub".to_owned(),
            kind,
            model_init: init,
            model_ty: model.text.clone(),
            in_ports: lee_entradas(&ins),
            out_ports: lee_salidas(&outs, items),
            ta_outputs,
        },
    )
}

/// What `#[output(...)]` asks for: a conversion, the time left, a start value.
pub struct OutputArgs {
    pub from: Option<String>,
    pub ta: bool,
    pub start: Option<String>,
}

pub struct OutputArgsView {
    pub from: Option<Seq<char>>,
    pub ta: bool,
    pub start: Option<Seq<char>>,
}

impl DeepView for OutputArgs {
    type V = OutputArgsView;

    open spec fn deep_view(&self) -> OutputArgsView {
        OutputArgsView {
            from: self.from.deep_view(),
            ta: self.ta,
            start: self.start.deep_view(),
        }
    }
}

/// What `#[output(...)]` asks for after one more argument.
pub open spec fn con_meta(a: OutputArgsView, m: MetaArgView) -> Result<OutputArgsView, ErrorView> {
    match m {
        MetaArgView::Path(p) if p == Some("ta"@) => Ok(OutputArgsView { ta: true, ..a }),
        MetaArgView::NameValue(p, v) if p == Some("from"@) => Ok(
            OutputArgsView { from: Some(v), ..a },
        ),
        MetaArgView::NameValue(p, v) if p == Some("start"@) => Ok(
            OutputArgsView { start: Some(v), ..a },
        ),
        _ => Err(ErrorView::Regla(Regla::ArgumentoDeOutput)),
    }
}

/// What `#[output(...)]` asks for after some more arguments.
pub open spec fn con_metas(a: OutputArgsView, ms: Seq<MetaArgView>) -> Result<
    OutputArgsView,
    ErrorView,
>
    decreases ms.len(),
{
    if ms.len() == 0 {
        Ok(a)
    } else {
        match con_meta(a, ms[0]) {
            Err(e) => Err(e),
            Ok(b) => con_metas(b, ms.drop_first()),
        }
    }
}

/// What a bare `#[output]` asks for.
pub open spec fn output_vacio() -> OutputArgsView {
    OutputArgsView { from: None, ta: false, start: None }
}

/// Whether an optional identifier is that one.
fn es_ident(id: &Option<String>, name: &str) -> (r: bool)
    ensures
        r == (id.deep_view() == Some(name@)),
{
    match id {
        Some(s) => es(s, name),
        None => false,
    }
}

/// Reads the arguments of `#[output(...)]`: `from = |ev| ...`, `ta` and `start = ...`.
pub fn parse_output_args(metas: &Vec<MetaArg>) -> (r: Result<OutputArgs, Error>)
    ensures
        vista(r) == con_metas(output_vacio(), metas.deep_view()),
{
    let ghost mv = metas.deep_view();
    let mut a = OutputArgs { from: None, ta: false, start: None };
    assert(mv.skip(0) =~= mv);
    let mut i: usize = 0;
    while i < metas.len()
        invariant
            i <= metas.len(),
            mv == metas.deep_view(),
            con_metas(output_vacio(), mv) == con_metas(a.deep_view(), mv.skip(i as int)),
        decreases metas.len() - i,
    {
        proof {
            assert(mv.skip(i as int)[0] == metas[i as int].deep_view());
            assert(mv.skip(i as int).drop_first() =~= mv.skip(i + 1));
        }
        match &metas[i] {
            MetaArg::Path(p) => {
                if es_ident(p, "ta") {
                    a.ta = true;
                } else {
                    return Err(Error::Regla(Regla::ArgumentoDeOutput));
                }
            },
            MetaArg::NameValue(p, v) => {
                if es_ident(p, "from") {
                    a.from = Some(v.clone());
                } else if es_ident(p, "start") {
                    a.start = Some(v.clone());
                } else {
                    return Err(Error::Regla(Regla::ArgumentoDeOutput));
                }
            },
            MetaArg::List => {
                return Err(Error::Regla(Regla::ArgumentoDeOutput));
            },
        }
        i += 1;
    }
    Ok(a)
}

/// The start value that `#[input(...)]` declares: the last `start = ...`. Any other argument is
/// passed over.
pub open spec fn start_de(ms: Seq<MetaArgView>) -> Option<Seq<char>>
    decreases ms.len(),
{
    if ms.len() == 0 {
        None
    } else {
        match ms.last() {
            MetaArgView::NameValue(p, v) if p == Some("start"@) => Some(v),
            _ => start_de(ms.drop_last()),
        }
    }
}

/// The start value that `#[input(...)]` declares.
fn lee_start(metas: &Vec<MetaArg>) -> (r: Option<String>)
    ensures
        r.deep_view() == start_de(metas.deep_view()),
{
    let ghost mv = metas.deep_view();
    let mut start: Option<String> = None;
    let mut i: usize = 0;
    while i < metas.len()
        invariant
            i <= metas.len(),
            mv == metas.deep_view(),
            start.deep_view() == start_de(mv.take(i as int)),
        decreases metas.len() - i,
    {
        proof {
            assert(mv.take(i + 1).drop_last() =~= mv.take(i as int));
            assert(mv.take(i + 1).last() == metas[i as int].deep_view());
        }
        if let MetaArg::NameValue(p, v) = &metas[i] {
            if es_ident(p, "start") {
                start = Some(v.clone());
            }
        }
        i += 1;
    }
    assert(mv.take(mv.len() as int) =~= mv);
    start
}

/// The variables that some declared fields give.
pub struct Declarado {
    pub in_ports: Vec<InPort>,
    pub out_vars: Vec<OutVar>,
    pub ta_outputs: Vec<SpecTaOut>,
}

pub struct DeclaradoView {
    pub in_ports: Seq<InPortView>,
    pub out_vars: Seq<OutVarView>,
    pub ta_outputs: Seq<SpecTaOutView>,
}

impl DeepView for Declarado {
    type V = DeclaradoView;

    open spec fn deep_view(&self) -> DeclaradoView {
        DeclaradoView {
            in_ports: self.in_ports.deep_view(),
            out_vars: self.out_vars.deep_view(),
            ta_outputs: self.ta_outputs.deep_view(),
        }
    }
}

/// The declared start value of a variable, or the one of its type.
pub open spec fn inicio_de(start: Option<Seq<char>>, ty: DataTypeView) -> Seq<char> {
    match start {
        Some(s) => s,
        None => default_start_spec(ty),
    }
}

/// The declared start value of a variable, or the one of its type.
fn inicio(start: Option<String>, ty: &DataType) -> (r: String)
    ensures
        r@ == inicio_de(start.deep_view(), ty.deep_view()),
{
    match start {
        Some(s) => s,
        None => default_start(ty),
    }
}

/// One more input.
pub open spec fn con_input(
    d: DeclaradoView,
    name: Seq<char>,
    ty: DataTypeView,
    start: Option<Seq<char>>,
) -> DeclaradoView {
    DeclaradoView {
        in_ports: d.in_ports.push(
            InPortView {
                field: name,
                access: AccessView::Whole,
                ty: ty.text,
                start: inicio_de(start, ty),
            },
        ),
        ..d
    }
}

/// One more output: of the time left, or of the output port.
pub open spec fn con_output(
    d: DeclaradoView,
    name: Seq<char>,
    ty: DataTypeView,
    a: OutputArgsView,
) -> DeclaradoView {
    let start = inicio_de(a.start, ty);
    if a.ta {
        DeclaradoView {
            ta_outputs: d.ta_outputs.push(SpecTaOutView { field: name, ty: ty.text, start }),
            ..d
        }
    } else {
        DeclaradoView {
            out_vars: d.out_vars.push(
                OutVarView { field: name, from: a.from, ty: ty.text, start },
            ),
            ..d
        }
    }
}

/// Whether an attribute labels its field as an input or an output.
pub open spec fn es_etiqueta(at: AttrView) -> bool {
    at.ident == Some("input"@) || at.ident == Some("output"@)
}

/// The variables after one more attribute of a field.
pub open spec fn con_attr(
    d: DeclaradoView,
    name: Seq<char>,
    ty: DataTypeView,
    at: AttrView,
) -> Result<DeclaradoView, ErrorView> {
    if at.ident == Some("input"@) {
        match at.args {
            AttrArgsView::Nothing => Ok(con_input(d, name, ty, None)),
            AttrArgsView::List(ms) => Ok(con_input(d, name, ty, start_de(ms))),
            AttrArgsView::Bad(e) => Err(ErrorView::Sintaxis(e)),
        }
    } else if at.ident == Some("output"@) {
        match at.args {
            AttrArgsView::Nothing => Ok(con_output(d, name, ty, output_vacio())),
            AttrArgsView::List(ms) => match con_metas(output_vacio(), ms) {
                Err(e) => Err(e),
                Ok(a) => Ok(con_output(d, name, ty, a)),
            },
            AttrArgsView::Bad(e) => Err(ErrorView::Sintaxis(e)),
        }
    } else {
        Ok(d)
    }
}

/// The variables after some more attributes of a field.
pub open spec fn con_attrs(
    d: DeclaradoView,
    name: Seq<char>,
    ty: DataTypeView,
    ats: Seq<AttrView>,
) -> Result<DeclaradoView, ErrorView>
    decreases ats.len(),
{
    if ats.len() == 0 {
        Ok(d)
    } else {
        match con_attr(d, name, ty, ats[0]) {
            Err(e) => Err(e),
            Ok(c) => con_attrs(c, name, ty, ats.drop_first()),
        }
    }
}

/// The variables after one more field, which needs a name and a label.
pub open spec fn con_campo(d: DeclaradoView, f: DeclFieldView) -> Result<DeclaradoView, ErrorView> {
    match f.ident {
        None => Err(ErrorView::Regla(Regla::CampoSinNombre)),
        Some(name) => match con_attrs(d, name, f.ty, f.attrs) {
            Err(e) => Err(e),
            Ok(c) => if exists|k: int| 0 <= k < f.attrs.len() && es_etiqueta(#[trigger] f.attrs[k]) {
                Ok(c)
            } else {
                Err(ErrorView::Regla(Regla::CampoSinEtiqueta))
            },
        },
    }
}

/// The variables after some more fields.
pub open spec fn con_campos(d: DeclaradoView, fs: Seq<DeclFieldView>) -> Result<
    DeclaradoView,
    ErrorView,
>
    decreases fs.len(),
{
    if fs.len() == 0 {
        Ok(d)
    } else {
        match con_campo(d, fs[0]) {
            Err(e) => Err(e),
            Ok(c) => con_campos(c, fs.drop_first()),
        }
    }
}

/// No variables.
pub open spec fn declarado_vacio() -> DeclaradoView {
    DeclaradoView { in_ports: Seq::empty(), out_vars: Seq::empty(), ta_outputs: Seq::empty() }
}

/// The interface that a struct declares, or the first rule that is broken.
pub open spec fn expand_struct_spec(args: MacroArgsView, item: DeclView, kind: SimKind) -> Result<
    SpecView,
    ErrorView,
> {
    match args.model {
        None => Err(ErrorView::Regla(Regla::FaltaModel)),
        Some(model) => match args.init {
            None => Err(ErrorView::Regla(Regla::FaltaInit)),
            Some(init) => match con_campos(declarado_vacio(), item.fields) {
                Err(e) => Err(e),
                Ok(d) => Ok(
                    SpecView {
                        name: item.ident,
                        vis: item.vis,
                        kind,
                        model_init: init,
                        model_ty: model,
                        in_ports: d.in_ports,
                        out_ports: if d.out_vars.len() == 0 {
                            Seq::empty()
                        } else {
                            seq![OutPortView { access: AccessView::Whole, vars: d.out_vars }]
                        },
                        ta_outputs: d.ta_outputs,
                    },
                ),
            },
        },
    }
}

/// Adds the variables of one attribute of a field; says whether it is a label.
fn lee_attr(d: &mut Declarado, name: &String, ty: &DataType, at: &Attr) -> (r: Result<bool, Error>)
    ensures
        match r {
            Ok(etiqueta) => {
                &&& con_attr(old(d).deep_view(), name@, ty.deep_view(), at.deep_view()) == Ok::<
                    DeclaradoView,
                    ErrorView,
                >(final(d).deep_view())
                &&& etiqueta == es_etiqueta(at.deep_view())
            },
            Err(e) => con_attr(old(d).deep_view(), name@, ty.deep_view(), at.deep_view()) == Err::<
                DeclaradoView,
                ErrorView,
            >(e.deep_view()),
        },
{
    proof {
        reveal_strlit("input");
        reveal_strlit("output");
        assert("input"@.len() != "output"@.len());
    }
    if es_ident(&at.ident, "input") {
        let start = match &at.args {
            AttrArgs::Nothing => None,
            AttrArgs::List(ms) => lee_start(ms),
            AttrArgs::Bad(e) => {
                return Err(Error::Sintaxis(e.clone()));
            },
        };
        let x = InPort {
            field: name.clone(),
            access: Access::Whole,
            ty: ty.text.clone(),
            start: inicio(start, ty),
        };
        agrega(&mut d.in_ports, x);
        Ok(true)
    } else if es_ident(&at.ident, "output") {
        let a = match &at.args {
            AttrArgs::Nothing => OutputArgs { from: None, ta: false, start: None },
            AttrArgs::List(ms) => match parse_output_args(ms) {
                Err(e) => {
                    return Err(e);
                },
                Ok(a) => a,
            },
            AttrArgs::Bad(e) => {
                return Err(Error::Sintaxis(e.clone()));
            },
        };
        let start = inicio(a.start, ty);
        if a.ta {
            let x = SpecTaOut { field: name.clone(), ty: ty.text.clone(), start };
            agrega(&mut d.ta_outputs, x);
        } else {
            let x = OutVar { field: name.clone(), from: a.from, ty: ty.text.clone(), start };
            agrega(&mut d.out_vars, x);
        }
        Ok(true)
    } else {
        Ok(false)
    }
}

/// Adds the variables of a field.
fn lee_campo(d: &mut Declarado, f: &DeclField) -> (r: Result<(), Error>)
    ensures
        match r {
            Ok(_) => con_campo(old(d).deep_view(), f.deep_view()) == Ok::<DeclaradoView, ErrorView>(
                final(d).deep_view(),
            ),
            Err(e) => con_campo(old(d).deep_view(), f.deep_view()) == Err::<
                DeclaradoView,
                ErrorView,
            >(e.deep_view()),
        },
{
    let name = match &f.ident {
        None => {
            return Err(Error::Regla(Regla::CampoSinNombre));
        },
        Some(name) => name,
    };
    let ghost d0 = d.deep_view();
    let ghost av = f.attrs.deep_view();
    let ghost tv = f.ty.deep_view();
    let mut etiquetado = false;
    assert(av.skip(0) =~= av);
    let mut i: usize = 0;
    while i < f.attrs.len()
        invariant
            i <= f.attrs.len(),
            av == f.attrs.deep_view(),
            tv == f.ty.deep_view(),
            d0 == old(d).deep_view(),
            con_attrs(d0, name@, tv, av) == con_attrs(d.deep_view(), name@, tv, av.skip(i as int)),
            con_attrs(d0, name@, tv, av) is Err ==> con_campo(d0, f.deep_view()) == con_attrs(
                d0,
                name@,
                tv,
                av,
            ),
            etiquetado == exists|k: int| 0 <= k < i && es_etiqueta(#[trigger] av[k]),
        decreases f.attrs.len() - i,
    {
        proof {
            assert(av.skip(i as int)[0] == f.attrs[i as int].deep_view());
            assert(av.skip(i as int).drop_first() =~= av.skip(i + 1));
        }
        match lee_attr(d, name, &f.ty, &f.attrs[i]) {
            Err(e) => {
                return Err(e);
            },
            Ok(b) => {
                if b {
                    assert(es_etiqueta(av[i as int]));
                    etiquetado = true;
                }
            },
        }
        i += 1;
    }
    if etiquetado {
        Ok(())
    } else {
        Err(Error::Regla(Regla::CampoSinEtiqueta))
    }
}

/// Reads the interface that a struct declares.
pub fn expand_struct(args: &MacroArgs, item: &Decl, kind: SimKind) -> (r: Result<Spec, Error>)
    ensures
        vista(r) == expand_struct_spec(args.deep_view(), item.deep_view(), kind),
{
    let model = match &args.model {
        None => {
            return Err(Error::Regla(Regla::FaltaModel));
        },
        Some(m) => m,
    };
    let init = match &args.init {
        None => {
            return Err(Error::Regla(Regla::FaltaInit));
        },
        Some(e) => e,
    };
    let mut d = Declarado { in_ports: Vec::new(), out_vars: Vec::new(), ta_outputs: Vec::new() };
    let ghost fv = item.fields.deep_view();
    proof {
        assert(d.in_ports.deep_view() =~= Seq::empty());
        assert(d.out_vars.deep_view() =~= Seq::empty());
        assert(d.ta_outputs.deep_view() =~= Seq::empty());
        assert(fv.skip(0) =~= fv);
    }
    let mut i: usize = 0;
    while i < item.fields.len()
        invariant
            i <= item.fields.len(),
            fv == item.fields.deep_view(),
            con_campos(declarado_vacio(), fv) == con_campos(d.deep_view(), fv.skip(i as int)),
            args.deep_view().model is Some,
            args.deep_view().init is Some,
        decreases item.fields.len() - i,
    {
        proof {
            assert(fv.skip(i as int)[0] == item.fields[i as int].deep_view());
            assert(fv.skip(i as int).drop_first() =~= fv.skip(i + 1));
        }
        match lee_campo(&mut d, &item.fields[i]) {
            Err(e) => {
                return Err(e);
            },
            Ok(_) => {},
        }
        i += 1;
    }
    let mut out_ports: Vec<OutPort> = Vec::new();
    assert(out_ports.deep_view() =~= Seq::empty());
    if d.out_vars.len() > 0 {
        let port = OutPort { access: Access::Whole, vars: d.out_vars };
        let ghost pv = port.deep_view();
        agrega(&mut out_ports, port);
        assert(out_ports.deep_view() =~= seq![pv]);
    }
    Ok(
        Spec {
            name: item.ident.clone(),
            vis: item.vis.clone(),
            kind,
            model_init: init.clone(),
            model_ty: model.clone(),
            in_ports: d.in_ports,
            out_ports,
            ta_outputs: d.ta_outputs,
        },
    )
}

}
