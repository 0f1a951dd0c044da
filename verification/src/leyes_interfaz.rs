//! What holds of the way from a model, or from a declared struct, to the interface of its FMU.

use crate::devs::{DevsView, Evento, Fase, INTERVALO_PASIVO};
use crate::error::{ErrorView, Regla};
use crate::expansion::{
    args_spec, con_attr, con_attrs, con_campo, con_campos, con_meta, con_metas, con_par, con_pares,
    declarado_vacio, es_etiqueta, expand_mod_spec, expand_struct_spec, output_vacio, start_de,
    DeclaradoView, MacroArgsView, OutputArgsView,
};
use crate::interfaz::{
    Access, AccessView, InPort, OutPort, OutPortView, OutVar, PortInfoView, SimKind, Spec,
    SpecTaOut, SpecView,
};
use crate::leyes::{lemma_junta_mas, lemma_pascal_mas, lemma_snake_mas};
use crate::puertos::{
    dato_de, default_start_spec, enum_llamado, es_componente, extract_ports_spec,
    find_component_spec, implementa, nombre_en, port_data_spec, primer_tipo, puertos_de_struct,
    struct_llamado, tipo_asociado, variantes_de,
};
use crate::sintaxis::{
    ArgPairView, ArrayLenView, AssocTypeView, AttrArgsView, AttrView, BagTypeView, DataTypeView,
    DeclFieldView, DeclView, FieldView, ItemView, MetaArgView, PathTypeView, PortTypeView,
};
use crate::texto::{
    decimal, en_mayuscula, en_minuscula, es_mayuscula, junta, pascal_spec, sin_raw, snake_spec,
};
use vstd::prelude::*;

verus! {

// Text.

/// Pieces of text are put together in order, each one whole.
pub proof fn ley_junta(a: Seq<Seq<char>>, b: Seq<Seq<char>>, x: Seq<char>)
    ensures
        junta(Seq::empty()) == Seq::<char>::empty(),
        junta(seq![x]) == x,
        junta(a + b) == junta(a) + junta(b),
{
    lemma_junta_mas(a, b);
    reveal_with_fuel(junta, 2);
    assert(seq![x].drop_last() =~= Seq::empty());
    assert(junta(seq![x]) =~= x);
}

/// A raw identifier without its prefix is the identifier; any other is left as it is.
pub proof fn ley_raw(id: Seq<char>)
    ensures
        sin_raw("r#"@ + id) == id,
        id.len() < 2 || id[0] != 'r' || id[1] != '#' ==> sin_raw(id) == id,
{
    reveal_strlit("r#");
    let t = "r#"@ + id;
    assert(t[0] == 'r' && t[1] == '#');
    assert(t.skip(2) =~= id);
}

/// In ASCII a letter in upper case and the same letter in lower case are thirty-two places apart;
/// any other character has only itself.
pub proof fn ley_ascii(c: char)
    requires
        c <= '\x7f',
    ensures
        'a' <= c <= 'z' ==> en_mayuscula(c).len() == 1 && en_mayuscula(c)[0] as int == c as int
            - 32,
        !('a' <= c <= 'z') ==> en_mayuscula(c) == seq![c],
        'A' <= c <= 'Z' ==> en_minuscula(c).len() == 1 && en_minuscula(c)[0] as int == c as int
            + 32,
        !('A' <= c <= 'Z') ==> en_minuscula(c) == seq![c],
        es_mayuscula(c) <==> 'A' <= c <= 'Z',
{
}

/// A name grows in pascal case and in snake case by its last character alone: an underscore
/// vanishes from the one, and the character behind it goes to upper case; a capital gets an
/// underscore before it in the other, unless it comes first.
pub proof fn ley_ultima_letra(v: Seq<char>, c: char)
    ensures
        pascal_spec(v.push(c)) == pascal_spec(v) + (if c == '_' {
            Seq::empty()
        } else if v.len() == 0 || v.last() == '_' {
            en_mayuscula(c)
        } else {
            seq![c]
        }),
        snake_spec(v.push(c)) == snake_spec(v) + (if !es_mayuscula(c) {
            seq![c]
        } else if v.len() == 0 {
            en_minuscula(c)
        } else {
            seq!['_'] + en_minuscula(c)
        }),
{
    lemma_pascal_mas(v, c);
    lemma_snake_mas(v, c);
}

// Types, ports and bags.

/// Whether a type is a path that ends in that name.
pub open spec fn es_de(ty: DataTypeView, name: Seq<char>) -> bool {
    ty.idents matches Some(ids) && ids.len() > 0 && ids.last() == name
}

/// Whether a type is one of the integers.
pub open spec fn es_de_entero(ty: DataTypeView) -> bool {
    ||| es_de(ty, "i8"@) || es_de(ty, "i16"@) || es_de(ty, "i32"@) || es_de(ty, "i64"@)
    ||| es_de(ty, "u8"@) || es_de(ty, "u16"@) || es_de(ty, "u32"@) || es_de(ty, "u64"@)
    ||| es_de(ty, "isize"@) || es_de(ty, "usize"@)
}

/// A variable starts at a value of its own type: a boolean at `false`, an integer at `0`, and
/// anything else at `0.0`.
pub proof fn ley_valor_inicial(ty: DataTypeView)
    ensures
        es_de(ty, "bool"@) ==> default_start_spec(ty) == "false"@,
        es_de_entero(ty) ==> default_start_spec(ty) == "0"@,
        !es_de(ty, "bool"@) && !es_de_entero(ty) ==> default_start_spec(ty) == "0.0"@,
{
    reveal_strlit("bool");
    reveal_strlit("i8");
    reveal_strlit("i16");
    reveal_strlit("i32");
    reveal_strlit("i64");
    reveal_strlit("isize");
    reveal_strlit("u8");
    reveal_strlit("u16");
    reveal_strlit("u32");
    reveal_strlit("u64");
    reveal_strlit("usize");
    assert("bool"@[0] == 'b');
    assert("bool"@ != "i8"@ && "bool"@ != "i16"@ && "bool"@ != "i32"@ && "bool"@ != "i64"@);
    assert("bool"@ != "u8"@ && "bool"@ != "u16"@ && "bool"@ != "u32"@ && "bool"@ != "u64"@);
    assert("bool"@ != "isize"@ && "bool"@ != "usize"@);
}

/// The first argument that is a type.
proof fn lemma_primer_tipo(args: Seq<Option<DataTypeView>>, k: int)
    requires
        0 <= k <= args.len(),
        forall|j: int| 0 <= j < k ==> (#[trigger] args[j]) is None,
        k < args.len() ==> args[k] is Some,
    ensures
        k < args.len() ==> primer_tipo(args) == args[k],
        k == args.len() ==> primer_tipo(args) is None,
    decreases k,
{
    if k > 0 {
        let resto = args.drop_first();
        assert(args[0] is None);
        assert forall|j: int| 0 <= j < k - 1 implies (#[trigger] resto[j]) is None by {
            assert(args[j + 1] is None);
        }
        lemma_primer_tipo(resto, k - 1);
    }
}

/// What a port carries is the first type among the arguments of its last segment, at place `k`;
/// that segment has to be `Port`, and a type without such an argument carries nothing.
pub proof fn ley_dato(ty: PortTypeView, path: PathTypeView, k: int)
    requires
        ty.path == Some(path),
        path.segments.len() > 0,
        0 <= k <= path.segments.last().args.len(),
        forall|j: int| 0 <= j < k ==> (#[trigger] path.segments.last().args[j]) is None,
        k < path.segments.last().args.len() ==> path.segments.last().args[k] is Some,
    ensures
        dato_de(path) == port_data_spec(ty),
        path.segments.last().ident != "Port"@ ==> port_data_spec(ty) is None,
        path.segments.last().ident == "Port"@ && k < path.segments.last().args.len()
            ==> port_data_spec(ty) == path.segments.last().args[k],
        path.segments.last().ident == "Port"@ && k == path.segments.last().args.len()
            ==> port_data_spec(ty) is None,
{
    lemma_primer_tipo(path.segments.last().args, k);
}

/// A type that is no path, or an empty one, is no port.
pub proof fn ley_sin_dato(ty: PortTypeView, path: PathTypeView)
    ensures
        ty.path is None ==> port_data_spec(ty) is None,
        path.segments.len() == 0 ==> dato_de(path) is None,
{
}

/// The struct of a name is the first one of that name among the items.
pub proof fn ley_struct(items: Seq<ItemView>, name: Seq<char>, k: int, fields: Seq<FieldView>)
    requires
        0 <= k <= items.len(),
        forall|j: int|
            0 <= j < k ==> !(#[trigger] items[j] matches ItemView::Struct(n, _) && n == name),
        k < items.len() ==> items[k] == ItemView::Struct(name, fields),
    ensures
        k < items.len() ==> struct_llamado(items, name) == Some(fields),
        k == items.len() ==> struct_llamado(items, name) is None,
    decreases k,
{
    if k > 0 {
        let resto = items.drop_first();
        assert(!(items[0] matches ItemView::Struct(n, _) && n == name));
        assert forall|j: int| 0 <= j < k - 1 implies !(#[trigger] resto[j] matches ItemView::Struct(
            n,
            _,
        ) && n == name) by {
            assert(resto[j] == items[j + 1]);
        }
        ley_struct(resto, name, k - 1, fields);
    }
}

/// The enum that a type names is the first one of that name among the items; a type that is no
/// path names none.
pub proof fn ley_enum(
    items: Seq<ItemView>,
    ty: DataTypeView,
    name: Seq<char>,
    k: int,
    variants: Seq<Seq<char>>,
)
    requires
        0 <= k <= items.len(),
        forall|j: int|
            0 <= j < k ==> !(#[trigger] items[j] matches ItemView::Enum(n, _) && n == name),
        k < items.len() ==> items[k] == ItemView::Enum(name, variants),
    ensures
        es_de(ty, name) && k < items.len() ==> variantes_de(items, ty) == Some(variants),
        es_de(ty, name) && k == items.len() ==> variantes_de(items, ty) is None,
        ty.idents is None ==> variantes_de(items, ty) is None,
{
    lemma_enum(items, name, k, variants);
}

/// The first enum of a name.
proof fn lemma_enum(items: Seq<ItemView>, name: Seq<char>, k: int, variants: Seq<Seq<char>>)
    requires
        0 <= k <= items.len(),
        forall|j: int|
            0 <= j < k ==> !(#[trigger] items[j] matches ItemView::Enum(n, _) && n == name),
        k < items.len() ==> items[k] == ItemView::Enum(name, variants),
    ensures
        k < items.len() ==> enum_llamado(items, name) == Some(variants),
        k == items.len() ==> enum_llamado(items, name) is None,
    decreases k,
{
    if k > 0 {
        let resto = items.drop_first();
        assert(!(items[0] matches ItemView::Enum(n, _) && n == name));
        assert forall|j: int| 0 <= j < k - 1 implies !(#[trigger] resto[j] matches ItemView::Enum(
            n,
            _,
        ) && n == name) by {
            assert(resto[j] == items[j + 1]);
        }
        lemma_enum(resto, name, k - 1, variants);
    }
}

/// Of several associated types of one name the last one counts.
pub proof fn ley_tipo_asociado(types: Seq<AssocTypeView>, t: AssocTypeView, name: Seq<char>)
    ensures
        tipo_asociado(Seq::empty(), name) is None,
        tipo_asociado(types.push(t), name) == if t.ident == name {
            Some(t.ty)
        } else {
            tipo_asociado(types, name)
        },
{
    assert(types.push(t).drop_last() =~= types);
}

/// An item is the component of a model of a kind if it is an `impl` of `Component`, under any
/// path, whose `type Kind` ends in the kind's own name. Only an `impl` of a trait implements
/// anything.
pub proof fn ley_es_componente(item: ItemView, kind: SimKind, name: Seq<char>)
    ensures
        implementa(item, name) <==> (item matches ItemView::Impl(Some(ids), _, _) && ids.len() > 0
            && ids.last() == name),
        es_componente(item, kind) <==> {
            &&& item matches ItemView::Impl(Some(ids), _, types)
            &&& ids.len() > 0
            &&& ids.last() == "Component"@
            &&& tipo_asociado(types, "Kind"@) matches Some(BagTypeView::Path(p))
            &&& p.segments.len() > 0
            &&& p.segments.last().ident == match kind {
                SimKind::Atomic => "AtomicKind"@,
                SimKind::Coupled => "CoupledKind"@,
            }
        },
{
}

/// Whether ports can be read from a bag: it is a port, or a struct of the module all of whose
/// fields are ports with a name, or a tuple of ports, or an array of ports of a literal length.
pub open spec fn bolsa_buena(ty: BagTypeView, items: Seq<ItemView>) -> bool {
    match ty {
        BagTypeView::Path(p) => {
            ||| dato_de(p) is Some
            ||| {
                &&& p.segments.len() > 0
                &&& struct_llamado(items, p.segments.last().ident) matches Some(fields)
                &&& forall|k: int|
                    0 <= k < fields.len() ==> (#[trigger] fields[k]).ident is Some
                        && port_data_spec(fields[k].ty) is Some
            }
        },
        BagTypeView::Tuple(elems) => forall|k: int|
            0 <= k < elems.len() ==> port_data_spec(#[trigger] elems[k]) is Some,
        BagTypeView::Array(elem, len) => {
            &&& port_data_spec(elem) is Some
            &&& len matches ArrayLenView::Count(k)
            &&& k <= usize::MAX
        },
        BagTypeView::Other => false,
    }
}

/// The ports of a struct are owed when every field is one; the first field that is not decides
/// the error.
proof fn lemma_fields(fields: Seq<FieldView>, k: int)
    requires
        0 <= k <= fields.len(),
        forall|j: int|
            0 <= j < k ==> (#[trigger] fields[j]).ident is Some && port_data_spec(fields[j].ty)
                is Some,
    ensures
        k == fields.len() ==> puertos_de_struct(fields) is Ok,
        k < fields.len() && fields[k].ident is None ==> puertos_de_struct(fields) == Err::<
            Seq<PortInfoView>,
            ErrorView,
        >(ErrorView::Regla(Regla::PuertoSinNombre)),
        k < fields.len() && fields[k].ident is Some && port_data_spec(fields[k].ty) is None
            ==> puertos_de_struct(fields) == Err::<Seq<PortInfoView>, ErrorView>(
            ErrorView::Regla(Regla::CampoNoEsPuerto),
        ),
    decreases fields.len(),
{
    if fields.len() > 0 {
        let resto = fields.drop_last();
        if k == fields.len() {
            assert(fields[k - 1].ident is Some);
            lemma_fields(resto, k - 1);
        } else {
            lemma_fields(resto, k);
        }
    }
}

/// The ports of a bag are owed exactly when it is one that ports can be read from; and each other
/// bag is refused for its own reason.
pub proof fn ley_bolsa(ty: BagTypeView, items: Seq<ItemView>, prefix: Seq<char>)
    ensures
        extract_ports_spec(ty, items, prefix) is Ok <==> bolsa_buena(ty, items),
        extract_ports_spec(ty, items, prefix) matches Err(e) ==> match ty {
            BagTypeView::Path(p) => if p.segments.len() == 0 {
                e == ErrorView::Regla(Regla::BolsaSinNombre)
            } else if struct_llamado(items, p.segments.last().ident) is None {
                e == ErrorView::BolsaDesconocida(p.segments.last().ident)
            } else {
                e == ErrorView::Regla(Regla::PuertoSinNombre) || e == ErrorView::Regla(
                    Regla::CampoNoEsPuerto,
                )
            },
            BagTypeView::Tuple(_) => e == ErrorView::Regla(Regla::ElementoDeTupla),
            BagTypeView::Array(elem, len) => if port_data_spec(elem) is None {
                e == ErrorView::Regla(Regla::ElementoDeArray)
            } else {
                match len {
                    ArrayLenView::NotLiteral => e == ErrorView::Regla(Regla::LongitudDeArray),
                    ArrayLenView::Bad(m) => e == ErrorView::Sintaxis(m),
                    ArrayLenView::Count(_) => e == ErrorView::Sintaxis(
                        "number too large to fit in target type"@,
                    ),
                }
            },
            BagTypeView::Other => e == ErrorView::Regla(Regla::BolsaNoSoportada),
        },
{
    if let BagTypeView::Path(p) = ty {
        if dato_de(p) is None && p.segments.len() > 0 {
            if let Some(fields) = struct_llamado(items, p.segments.last().ident) {
                lemma_primer_fallo(fields);
            }
        }
    }
}

/// Either every field is a port, or there is a first one that is not.
proof fn lemma_primer_fallo(fields: Seq<FieldView>)
    ensures
        puertos_de_struct(fields) is Ok <==> (forall|k: int|
            0 <= k < fields.len() ==> (#[trigger] fields[k]).ident is Some && port_data_spec(
                fields[k].ty,
            ) is Some),
        puertos_de_struct(fields) matches Err(e) ==> e == ErrorView::Regla(Regla::PuertoSinNombre)
            || e == ErrorView::Regla(Regla::CampoNoEsPuerto),
    decreases fields.len(),
{
    if fields.len() > 0 {
        let resto = fields.drop_last();
        lemma_primer_fallo(resto);
        if puertos_de_struct(fields) is Ok {
            assert forall|k: int| 0 <= k < fields.len() implies (#[trigger] fields[k]).ident is Some
                && port_data_spec(fields[k].ty) is Some by {
                if k < resto.len() {
                    assert(resto[k] == fields[k]);
                }
            }
        } else if forall|k: int|
            0 <= k < fields.len() ==> (#[trigger] fields[k]).ident is Some && port_data_spec(
                fields[k].ty,
            ) is Some {
            lemma_fields(fields, fields.len() as int);
        }
    }
}

/// Of the fields of a struct of ports the first one that is no port decides the error: that it has
/// no name, or that its type is no port.
pub proof fn ley_primer_campo_malo(
    p: PathTypeView,
    items: Seq<ItemView>,
    prefix: Seq<char>,
    fields: Seq<FieldView>,
    k: int,
)
    requires
        dato_de(p) is None,
        p.segments.len() > 0,
        struct_llamado(items, p.segments.last().ident) == Some(fields),
        0 <= k < fields.len(),
        forall|j: int|
            0 <= j < k ==> (#[trigger] fields[j]).ident is Some && port_data_spec(fields[j].ty)
                is Some,
        fields[k].ident is None || port_data_spec(fields[k].ty) is None,
    ensures
        extract_ports_spec(BagTypeView::Path(p), items, prefix) == Err::<
            Seq<PortInfoView>,
            ErrorView,
        >(
            ErrorView::Regla(
                if fields[k].ident is None {
                    Regla::PuertoSinNombre
                } else {
                    Regla::CampoNoEsPuerto
                },
            ),
        ),
{
    lemma_fields(fields, k);
}

/// The ports of a tuple or an array are called by the bag and their position.
pub proof fn ley_nombre_en(prefix: Seq<char>, i: nat)
    ensures
        nombre_en(prefix, i as int) == prefix + "_"@ + decimal(i),
{
}

// The module form.

/// What is read of a model to make its interface: its type, its path, its input ports and its
/// output ports.
pub struct Lectura {
    pub model: PortTypeView,
    pub path: PathTypeView,
    pub input: BagTypeView,
    pub output: BagTypeView,
    pub ins: Seq<PortInfoView>,
    pub outs: Seq<PortInfoView>,
}

/// Whether an output port has the single variable of a port whose data is shown as it is: called
/// like the port, of the type of its data, at the start value of that type, without a conversion.
pub open spec fn es_salida_simple(x: OutPortView, p: PortInfoView) -> bool {
    &&& x.vars.len() == 1
    &&& x.vars[0].field == p.base_name
    &&& x.vars[0].ty == p.data.text
    &&& x.vars[0].start == default_start_spec(p.data)
    &&& x.vars[0].from is None
}

/// Whether an output port has a variable for each of some variants, in order.
pub open spec fn es_salida_por_variantes(
    x: OutPortView,
    p: PortInfoView,
    vs: Seq<Seq<char>>,
    unico: bool,
) -> bool {
    &&& x.vars.len() == vs.len()
    &&& forall|v: int|
        0 <= v < vs.len() ==> {
            &&& (#[trigger] x.vars[v]).field == if unico {
                snake_spec(vs[v])
            } else {
                p.base_name + "_"@ + snake_spec(vs[v])
            }
            &&& x.vars[v].ty == "f64"@
            &&& x.vars[v].start == "0.0"@
            &&& x.vars[v].from == Some(
                "|__s: "@ + p.data.text + "| if __s == "@ + p.data.text + "::"@ + vs[v]
                    + " { 1.0 } else { 0.0 }"@,
            )
        }
}

/// The interface of a model in a module: an input for each port of its input bag, with the type
/// of the port's data; for each port of its output bag a variable with the type of the port's
/// data, or one for each variant where that is an enum of the module; the model's name with `Fmu`
/// behind it; and the model built by `init`, or else by its `Default`.
pub proof fn ley_interfaz(
    args: MacroArgsView,
    items: Seq<ItemView>,
    kind: SimKind,
    s: SpecView,
) -> (r: Lectura)
    requires
        expand_mod_spec(args, Some(items), kind) == Ok::<SpecView, ErrorView>(s),
    ensures
        find_component_spec(items, kind) == Some((r.model, r.input, r.output)),
        exists|k: int|
            0 <= k < items.len() && implementa(
                #[trigger] items[k],
                match kind {
                    SimKind::Atomic => "Atomic"@,
                    SimKind::Coupled => "Coupled"@,
                },
            ),
        r.model.path == Some(r.path),
        r.path.segments.len() > 0,
        extract_ports_spec(r.input, items, "input"@) == Ok::<Seq<PortInfoView>, ErrorView>(r.ins),
        extract_ports_spec(r.output, items, "output"@) == Ok::<Seq<PortInfoView>, ErrorView>(
            r.outs,
        ),
        s.name == sin_raw(r.path.segments.last().ident) + "Fmu"@,
        s.vis == "pub"@,
        s.kind == kind,
        s.model_ty == r.model.text,
        args.init matches Some(e) ==> s.model_init == e,
        args.init is None ==> s.model_init == "< "@ + r.path.text
            + " as ::core::default::Default>::default()"@,
        s.ta_outputs.len() == 0,
        s.in_ports.len() == r.ins.len(),
        forall|i: int|
            0 <= i < r.ins.len() ==> {
                &&& (#[trigger] s.in_ports[i]).field == r.ins[i].base_name
                &&& s.in_ports[i].access == r.ins[i].access
                &&& s.in_ports[i].ty == r.ins[i].data.text
                &&& s.in_ports[i].start == default_start_spec(r.ins[i].data)
            },
        s.out_ports.len() == r.outs.len(),
        forall|i: int|
            0 <= i < r.outs.len() ==> {
                &&& (#[trigger] s.out_ports[i]).access == r.outs[i].access
                &&& match variantes_de(items, r.outs[i].data) {
                    None => es_salida_simple(s.out_ports[i], r.outs[i]),
                    Some(vs) => es_salida_por_variantes(
                        s.out_ports[i],
                        r.outs[i],
                        vs,
                        r.outs.len() == 1,
                    ),
                }
            },
{
    let (model, input, output) = find_component_spec(items, kind)->0;
    let path = model.path->0;
    let ins = extract_ports_spec(input, items, "input"@)->Ok_0;
    let outs = extract_ports_spec(output, items, "output"@)->Ok_0;
    Lectura { model, path, input, output, ins, outs }
}

/// A module is refused for the first of these reasons that holds: it has no body, no component of
/// the kind, no `impl` of the kind's trait; its model is no path, or an empty one; its input bag
/// is refused; its output bag is. If none holds it is not refused.
pub proof fn ley_modulo_rechazado(args: MacroArgsView, items: Seq<ItemView>, kind: SimKind)
    ensures
        expand_mod_spec(args, None, kind) == Err::<SpecView, ErrorView>(
            ErrorView::Regla(Regla::ModuloSinCuerpo),
        ),
        ({
            let r = expand_mod_spec(args, Some(items), kind);
            let nombre = match kind {
                SimKind::Atomic => "Atomic"@,
                SimKind::Coupled => "Coupled"@,
            };
            match find_component_spec(items, kind) {
                None => r == Err::<SpecView, ErrorView>(
                    ErrorView::Regla(Regla::SinComponente(kind)),
                ),
                Some((model, input, output)) => {
                    let ins = extract_ports_spec(input, items, "input"@);
                    let outs = extract_ports_spec(output, items, "output"@);
                    if forall|k: int|
                        0 <= k < items.len() ==> !implementa(#[trigger] items[k], nombre) {
                        r == Err::<SpecView, ErrorView>(ErrorView::Regla(Regla::SinTrait(kind)))
                    } else if model.path is None {
                        r == Err::<SpecView, ErrorView>(ErrorView::Regla(Regla::ModeloNoNombrado))
                    } else if model.path->0.segments.len() == 0 {
                        r == Err::<SpecView, ErrorView>(ErrorView::Regla(Regla::ModeloSinNombre))
                    } else if ins is Err {
                        r == Err::<SpecView, ErrorView>(ins->Err_0)
                    } else if outs is Err {
                        r == Err::<SpecView, ErrorView>(outs->Err_0)
                    } else {
                        r is Ok
                    }
                },
            }
        }),
{
}

// The declared form.

/// Some variables and then some more.
pub open spec fn junto(a: DeclaradoView, b: DeclaradoView) -> DeclaradoView {
    DeclaradoView {
        in_ports: a.in_ports + b.in_ports,
        out_vars: a.out_vars + b.out_vars,
        ta_outputs: a.ta_outputs + b.ta_outputs,
    }
}

/// What two readings, one behind the other, give: the first error, or the variables of the one
/// and then those of the other.
pub open spec fn uno_tras_otro(
    a: Result<DeclaradoView, ErrorView>,
    b: Result<DeclaradoView, ErrorView>,
) -> Result<DeclaradoView, ErrorView> {
    match a {
        Err(e) => Err(e),
        Ok(x) => match b {
            Err(e) => Err(e),
            Ok(y) => Ok(junto(x, y)),
        },
    }
}

/// No variables before, or behind, change nothing; and it does not matter how they are grouped.
proof fn lemma_junto(a: DeclaradoView, b: DeclaradoView, c: DeclaradoView)
    ensures
        junto(a, declarado_vacio()) == a,
        junto(declarado_vacio(), a) == a,
        junto(junto(a, b), c) == junto(a, junto(b, c)),
{
    let v = declarado_vacio();
    assert(junto(a, v).in_ports =~= a.in_ports);
    assert(junto(a, v).out_vars =~= a.out_vars);
    assert(junto(a, v).ta_outputs =~= a.ta_outputs);
    assert(junto(v, a).in_ports =~= a.in_ports);
    assert(junto(v, a).out_vars =~= a.out_vars);
    assert(junto(v, a).ta_outputs =~= a.ta_outputs);
    assert(junto(junto(a, b), c).in_ports =~= junto(a, junto(b, c)).in_ports);
    assert(junto(junto(a, b), c).out_vars =~= junto(a, junto(b, c)).out_vars);
    assert(junto(junto(a, b), c).ta_outputs =~= junto(a, junto(b, c)).ta_outputs);
}

/// An attribute adds the same variables whatever there was before.
proof fn lemma_attr_tras(d: DeclaradoView, name: Seq<char>, ty: DataTypeView, at: AttrView)
    ensures
        con_attr(d, name, ty, at) == uno_tras_otro(
            Ok(d),
            con_attr(declarado_vacio(), name, ty, at),
        ),
{
    let v = declarado_vacio();
    lemma_junto(d, v, v);
    if let Ok(c) = con_attr(v, name, ty, at) {
        let e = con_attr(d, name, ty, at)->Ok_0;
        assert(e.in_ports =~= d.in_ports + c.in_ports);
        assert(e.out_vars =~= d.out_vars + c.out_vars);
        assert(e.ta_outputs =~= d.ta_outputs + c.ta_outputs);
    }
}

/// Attributes add the same variables whatever there was before.
proof fn lemma_attrs_tras(
    d: DeclaradoView,
    name: Seq<char>,
    ty: DataTypeView,
    ats: Seq<AttrView>,
)
    ensures
        con_attrs(d, name, ty, ats) == uno_tras_otro(
            Ok(d),
            con_attrs(declarado_vacio(), name, ty, ats),
        ),
    decreases ats.len(),
{
    let v = declarado_vacio();
    lemma_junto(d, v, v);
    if ats.len() > 0 {
        let resto = ats.drop_first();
        lemma_attr_tras(d, name, ty, ats[0]);
        if let Ok(c) = con_attr(v, name, ty, ats[0]) {
            lemma_attrs_tras(junto(d, c), name, ty, resto);
            lemma_attrs_tras(c, name, ty, resto);
            if let Ok(x) = con_attrs(v, name, ty, resto) {
                lemma_junto(d, c, x);
            }
        }
    }
}

/// A field adds the same variables whatever there was before.
proof fn lemma_campo_tras(d: DeclaradoView, f: DeclFieldView)
    ensures
        con_campo(d, f) == uno_tras_otro(Ok(d), con_campo(declarado_vacio(), f)),
{
    if let Some(name) = f.ident {
        lemma_attrs_tras(d, name, f.ty, f.attrs);
    }
}

/// Fields add the same variables whatever there was before.
proof fn lemma_campos_tras(d: DeclaradoView, fs: Seq<DeclFieldView>)
    ensures
        con_campos(d, fs) == uno_tras_otro(Ok(d), con_campos(declarado_vacio(), fs)),
    decreases fs.len(),
{
    let v = declarado_vacio();
    lemma_junto(d, v, v);
    if fs.len() > 0 {
        let resto = fs.drop_first();
        lemma_campo_tras(d, fs[0]);
        if let Ok(c) = con_campo(v, fs[0]) {
            lemma_campos_tras(junto(d, c), resto);
            lemma_campos_tras(c, resto);
            if let Ok(x) = con_campos(v, resto) {
                lemma_junto(d, c, x);
            }
        }
    }
}

/// The variables of some fields and then some more are those of the first fields and then those
/// of the others; of two errors the first one counts.
pub proof fn ley_campos_en_orden(fs: Seq<DeclFieldView>, gs: Seq<DeclFieldView>)
    ensures
        con_campos(declarado_vacio(), fs + gs) == uno_tras_otro(
            con_campos(declarado_vacio(), fs),
            con_campos(declarado_vacio(), gs),
        ),
        con_campos(declarado_vacio(), Seq::empty()) == Ok::<DeclaradoView, ErrorView>(
            declarado_vacio(),
        ),
    decreases fs.len(),
{
    let v = declarado_vacio();
    if fs.len() == 0 {
        assert(fs + gs =~= gs);
        if let Ok(y) = con_campos(v, gs) {
            lemma_junto(y, v, v);
        }
    } else {
        let resto = fs.drop_first();
        assert((fs + gs).drop_first() =~= resto + gs);
        assert((fs + gs)[0] == fs[0]);
        if let Ok(c) = con_campo(v, fs[0]) {
            ley_campos_en_orden(resto, gs);
            lemma_campos_tras(c, resto + gs);
            lemma_campos_tras(c, resto);
            if let Ok(x) = con_campos(v, resto) {
                if let Ok(y) = con_campos(v, gs) {
                    lemma_junto(c, x, y);
                }
            }
        }
    }
}

/// The variables of a field with some attributes and then some more are those of the first
/// attributes and then those of the others; of two errors the first one counts.
pub proof fn ley_attrs_en_orden(
    name: Seq<char>,
    ty: DataTypeView,
    a: Seq<AttrView>,
    b: Seq<AttrView>,
)
    ensures
        con_attrs(declarado_vacio(), name, ty, a + b) == uno_tras_otro(
            con_attrs(declarado_vacio(), name, ty, a),
            con_attrs(declarado_vacio(), name, ty, b),
        ),
        con_attrs(declarado_vacio(), name, ty, Seq::empty()) == Ok::<DeclaradoView, ErrorView>(
            declarado_vacio(),
        ),
    decreases a.len(),
{
    let v = declarado_vacio();
    if a.len() == 0 {
        assert(a + b =~= b);
        if let Ok(y) = con_attrs(v, name, ty, b) {
            lemma_junto(y, v, v);
        }
    } else {
        let resto = a.drop_first();
        assert((a + b).drop_first() =~= resto + b);
        assert((a + b)[0] == a[0]);
        if let Ok(c) = con_attr(v, name, ty, a[0]) {
            ley_attrs_en_orden(name, ty, resto, b);
            lemma_attrs_tras(c, name, ty, resto + b);
            lemma_attrs_tras(c, name, ty, resto);
            if let Ok(x) = con_attrs(v, name, ty, resto) {
                if let Ok(y) = con_attrs(v, name, ty, b) {
                    lemma_junto(c, x, y);
                }
            }
        }
    }
}

/// A field alone: it needs a name, its attributes have to be right, and one of them has to be
/// `#[input]` or `#[output]`; then its variables are those of its attributes.
pub proof fn ley_campo_declarado(f: DeclFieldView)
    ensures
        ({
            let r = con_campos(declarado_vacio(), seq![f]);
            match f.ident {
                None => r == Err::<DeclaradoView, ErrorView>(
                    ErrorView::Regla(Regla::CampoSinNombre),
                ),
                Some(name) => match con_attrs(declarado_vacio(), name, f.ty, f.attrs) {
                    Err(e) => r == Err::<DeclaradoView, ErrorView>(e),
                    Ok(d) => if forall|k: int|
                        0 <= k < f.attrs.len() ==> {
                            &&& (#[trigger] f.attrs[k]).ident != Some("input"@)
                            &&& f.attrs[k].ident != Some("output"@)
                        } {
                        r == Err::<DeclaradoView, ErrorView>(
                            ErrorView::Regla(Regla::CampoSinEtiqueta),
                        )
                    } else {
                        r == Ok::<DeclaradoView, ErrorView>(d)
                    },
                },
            }
        }),
{
    reveal_with_fuel(con_campos, 2);
    assert(seq![f].drop_first() =~= Seq::empty());
    if exists|k: int| 0 <= k < f.attrs.len() && es_etiqueta(#[trigger] f.attrs[k]) {
        let k = choose|k: int| 0 <= k < f.attrs.len() && es_etiqueta(#[trigger] f.attrs[k]);
        assert(f.attrs[k].ident == Some("input"@) || f.attrs[k].ident == Some("output"@));
    } else {
        assert forall|k: int| 0 <= k < f.attrs.len() implies {
            &&& (#[trigger] f.attrs[k]).ident != Some("input"@)
            &&& f.attrs[k].ident != Some("output"@)
        } by {
            assert(!es_etiqueta(f.attrs[k]));
        }
    }
}

/// Whether a declared variable starts where it should: at the value that is declared for it, or
/// else at the one of its own type.
pub open spec fn arranca_bien(
    start: Seq<char>,
    declarado: Option<Seq<char>>,
    ty: DataTypeView,
) -> bool {
    match declarado {
        Some(e) => start == e,
        None => start == default_start_spec(ty),
    }
}

/// An `#[input]` alone gives one input, which is the whole bag, called like its field, of the
/// field's type, at the declared start value or else at the one of its type.
pub proof fn ley_input(name: Seq<char>, ty: DataTypeView, at: AttrView)
    requires
        at.ident == Some("input"@),
    ensures
        ({
            let r = con_attrs(declarado_vacio(), name, ty, seq![at]);
            match at.args {
                AttrArgsView::Bad(e) => r == Err::<DeclaradoView, ErrorView>(
                    ErrorView::Sintaxis(e),
                ),
                _ => {
                    &&& r matches Ok(d)
                    &&& d.in_ports.len() == 1
                    &&& d.in_ports[0].field == name
                    &&& d.in_ports[0].access == AccessView::Whole
                    &&& d.in_ports[0].ty == ty.text
                    &&& arranca_bien(
                        d.in_ports[0].start,
                        match at.args {
                            AttrArgsView::List(ms) => start_de(ms),
                            _ => None,
                        },
                        ty,
                    )
                    &&& d.out_vars.len() == 0
                    &&& d.ta_outputs.len() == 0
                },
            }
        }),
{
    reveal_with_fuel(con_attrs, 2);
    assert(seq![at].drop_first() =~= Seq::empty());
}

/// An `#[output]` alone gives one output, called like its field, of the field's type, at the
/// declared start value or else at the one of its type: one that shows the time left if `ta` is
/// asked for, and else a variable of the output port with the conversion that is asked for.
pub proof fn ley_output(name: Seq<char>, ty: DataTypeView, at: AttrView)
    requires
        at.ident == Some("output"@),
    ensures
        ({
            let r = con_attrs(declarado_vacio(), name, ty, seq![at]);
            let pide = match at.args {
                AttrArgsView::List(ms) => con_metas(output_vacio(), ms),
                AttrArgsView::Nothing => Ok(
                    OutputArgsView { from: None, ta: false, start: None },
                ),
                AttrArgsView::Bad(e) => Err(ErrorView::Sintaxis(e)),
            };
            match pide {
                Err(e) => r == Err::<DeclaradoView, ErrorView>(e),
                Ok(a) => {
                    &&& r matches Ok(d)
                    &&& d.in_ports.len() == 0
                    &&& if a.ta {
                        &&& d.out_vars.len() == 0
                        &&& d.ta_outputs.len() == 1
                        &&& d.ta_outputs[0].field == name
                        &&& d.ta_outputs[0].ty == ty.text
                        &&& arranca_bien(d.ta_outputs[0].start, a.start, ty)
                    } else {
                        &&& d.ta_outputs.len() == 0
                        &&& d.out_vars.len() == 1
                        &&& d.out_vars[0].field == name
                        &&& d.out_vars[0].ty == ty.text
                        &&& d.out_vars[0].from == a.from
                        &&& arranca_bien(d.out_vars[0].start, a.start, ty)
                    }
                },
            }
        }),
{
    reveal_with_fuel(con_attrs, 2);
    reveal_strlit("input");
    reveal_strlit("output");
    assert("input"@.len() != "output"@.len());
    assert(seq![at].drop_first() =~= Seq::empty());
}

/// A variable that is declared without a start value starts at one of its own type, whichever
/// label it has.
pub proof fn ley_arranque_declarado(name: Seq<char>, ty: DataTypeView, at: AttrView)
    requires
        at.ident == Some("input"@) || at.ident == Some("output"@),
        at.args is Nothing,
    ensures
        ({
            let r = con_campos(
                declarado_vacio(),
                seq![DeclFieldView { ident: Some(name), ty, attrs: seq![at] }],
            );
            &&& r matches Ok(d)
            &&& d.in_ports.len() + d.out_vars.len() == 1
            &&& {
                let start = if d.in_ports.len() == 1 {
                    d.in_ports[0].start
                } else {
                    d.out_vars[0].start
                };
                &&& es_de(ty, "bool"@) ==> start == "false"@
                &&& es_de_entero(ty) ==> start == "0"@
                &&& !es_de(ty, "bool"@) && !es_de_entero(ty) ==> start == "0.0"@
            }
        }),
{
    let f = DeclFieldView { ident: Some(name), ty, attrs: seq![at] };
    ley_campo_declarado(f);
    assert(f.attrs[0] == at);
    ley_valor_inicial(ty);
    if at.ident == Some("input"@) {
        ley_input(name, ty, at);
    } else {
        ley_output(name, ty, at);
    }
}

/// Any other attribute gives nothing.
pub proof fn ley_otro_atributo(name: Seq<char>, ty: DataTypeView, at: AttrView)
    requires
        at.ident != Some("input"@),
        at.ident != Some("output"@),
    ensures
        con_attrs(declarado_vacio(), name, ty, seq![at]) == Ok::<DeclaradoView, ErrorView>(
            declarado_vacio(),
        ),
{
    reveal_with_fuel(con_attrs, 2);
    assert(seq![at].drop_first() =~= Seq::empty());
}

/// What no fields declare: no variables.
pub proof fn ley_vacio()
    ensures
        declarado_vacio().in_ports.len() == 0,
        declarado_vacio().out_vars.len() == 0,
        declarado_vacio().ta_outputs.len() == 0,
        output_vacio().from is None,
        !output_vacio().ta,
        output_vacio().start is None,
{
}

/// A declared interface: it needs `model` and `init`, and keeps them; the struct's own name and
/// visibility; its inputs and its outputs of the time left; and its other outputs, if there are
/// any, as the variables of a single port, which is the whole output bag.
pub proof fn ley_interfaz_declarada(args: MacroArgsView, item: DeclView, kind: SimKind)
    ensures
        ({
            let r = expand_struct_spec(args, item, kind);
            if args.model is None {
                r == Err::<SpecView, ErrorView>(ErrorView::Regla(Regla::FaltaModel))
            } else if args.init is None {
                r == Err::<SpecView, ErrorView>(ErrorView::Regla(Regla::FaltaInit))
            } else {
                match con_campos(declarado_vacio(), item.fields) {
                    Err(e) => r == Err::<SpecView, ErrorView>(e),
                    Ok(d) => {
                        &&& r matches Ok(s)
                        &&& s.name == item.ident
                        &&& s.vis == item.vis
                        &&& s.kind == kind
                        &&& Some(s.model_init) == args.init
                        &&& Some(s.model_ty) == args.model
                        &&& s.in_ports == d.in_ports
                        &&& s.ta_outputs == d.ta_outputs
                        &&& d.out_vars.len() == 0 ==> s.out_ports.len() == 0
                        &&& d.out_vars.len() > 0 ==> s.out_ports.len() == 1
                            && s.out_ports[0].access == AccessView::Whole && s.out_ports[0].vars
                            == d.out_vars
                    },
                }
            }
        }),
{
}

/// What is said of an interface is said of each of its fields as it stands: of its names, types,
/// start values, conversions and places.
pub proof fn ley_vistas(a: Access, i: InPort, v: OutVar, p: OutPort, o: SpecTaOut, s: Spec)
    ensures
        a.deep_view() == match a {
            Access::Whole => AccessView::Whole,
            Access::Tuple(k) => AccessView::Tuple(k as nat),
            Access::Array(k) => AccessView::Array(k as nat),
            Access::Field(f) => AccessView::Field(f@),
        },
        i.deep_view().field == i.field@,
        i.deep_view().access == i.access.deep_view(),
        i.deep_view().ty == i.ty@,
        i.deep_view().start == i.start@,
        v.deep_view().field == v.field@,
        v.deep_view().from == v.from.deep_view(),
        v.deep_view().ty == v.ty@,
        v.deep_view().start == v.start@,
        p.deep_view().access == p.access.deep_view(),
        p.deep_view().vars == p.vars.deep_view(),
        o.deep_view().field == o.field@,
        o.deep_view().ty == o.ty@,
        o.deep_view().start == o.start@,
        s.deep_view().name == s.name@,
        s.deep_view().vis == s.vis@,
        s.deep_view().kind == s.kind,
        s.deep_view().model_init == s.model_init@,
        s.deep_view().model_ty == s.model_ty@,
        s.deep_view().in_ports == s.in_ports.deep_view(),
        s.deep_view().out_ports == s.out_ports.deep_view(),
        s.deep_view().ta_outputs == s.ta_outputs.deep_view(),
{
}

// Arguments.

/// One more pair.
proof fn lemma_pares(a: MacroArgsView, ps: Seq<ArgPairView>, p: ArgPairView)
    ensures
        con_pares(a, ps.push(p)) == match con_pares(a, ps) {
            Err(e) => Err(e),
            Ok(b) => con_par(b, p),
        },
    decreases ps.len(),
{
    reveal_with_fuel(con_pares, 2);
    if ps.len() == 0 {
        assert(ps.push(p).drop_first() =~= Seq::empty());
    } else {
        assert(ps.push(p).drop_first() =~= ps.drop_first().push(p));
        assert(ps.push(p)[0] == ps[0]);
        if let Ok(b) = con_par(a, ps[0]) {
            lemma_pares(b, ps.drop_first(), p);
        }
    }
}

/// The last pair of the arguments replaces what an earlier one of its key gave and leaves the
/// other argument alone; `model` takes only a path, and any other key is refused by its name, but
/// an earlier error stands.
pub proof fn ley_argumentos(ps: Seq<ArgPairView>, p: ArgPairView)
    ensures
        args_spec(Seq::empty()) == Ok::<MacroArgsView, ErrorView>(
            MacroArgsView { model: None, init: None },
        ),
        ({
            let r = args_spec(ps.push(p));
            match args_spec(ps) {
                Err(e) => r == Err::<MacroArgsView, ErrorView>(e),
                Ok(a) => if p.key == Some("init"@) {
                    r == Ok::<MacroArgsView, ErrorView>(
                        MacroArgsView { model: a.model, init: Some(p.value) },
                    )
                } else if p.key == Some("model"@) {
                    match p.path {
                        Some(t) => r == Ok::<MacroArgsView, ErrorView>(
                            MacroArgsView { model: Some(t), init: a.init },
                        ),
                        None => r == Err::<MacroArgsView, ErrorView>(
                            ErrorView::Regla(Regla::ModelNoEsTipo),
                        ),
                    }
                } else {
                    match p.key {
                        Some(k) => r == Err::<MacroArgsView, ErrorView>(
                            ErrorView::ClaveDesconocida(k),
                        ),
                        None => r == Err::<MacroArgsView, ErrorView>(
                            ErrorView::ClaveDesconocida(Seq::empty()),
                        ),
                    }
                },
            }
        }),
{
    lemma_pares(MacroArgsView { model: None, init: None }, ps, p);
    reveal_strlit("model");
    reveal_strlit("init");
    assert("model"@.len() != "init"@.len());
}

/// One more argument.
proof fn lemma_metas(a: OutputArgsView, ms: Seq<MetaArgView>, m: MetaArgView)
    ensures
        con_metas(a, ms.push(m)) == match con_metas(a, ms) {
            Err(e) => Err(e),
            Ok(b) => con_meta(b, m),
        },
    decreases ms.len(),
{
    reveal_with_fuel(con_metas, 2);
    if ms.len() == 0 {
        assert(ms.push(m).drop_first() =~= Seq::empty());
    } else {
        assert(ms.push(m).drop_first() =~= ms.drop_first().push(m));
        assert(ms.push(m)[0] == ms[0]);
        if let Ok(b) = con_meta(a, ms[0]) {
            lemma_metas(b, ms.drop_first(), m);
        }
    }
}

/// The last argument of `#[output(...)]` adds to what the others ask for: `from` and `start`
/// replace an earlier one, `ta` asks for the time left, and anything else is refused, but an
/// earlier error stands. Of `#[input(...)]` the last `start` counts, and nothing else does.
pub proof fn ley_argumentos_de_campo(ms: Seq<MetaArgView>, m: MetaArgView)
    ensures
        ({
            let r = con_metas(output_vacio(), ms.push(m));
            match con_metas(output_vacio(), ms) {
                Err(e) => r == Err::<OutputArgsView, ErrorView>(e),
                Ok(a) => if m == MetaArgView::Path(Some("ta"@)) {
                    r == Ok::<OutputArgsView, ErrorView>(
                        OutputArgsView { from: a.from, ta: true, start: a.start },
                    )
                } else {
                    match m {
                        MetaArgView::NameValue(k, v) => if k == Some("from"@) {
                            r == Ok::<OutputArgsView, ErrorView>(
                                OutputArgsView { from: Some(v), ta: a.ta, start: a.start },
                            )
                        } else if k == Some("start"@) {
                            r == Ok::<OutputArgsView, ErrorView>(
                                OutputArgsView { from: a.from, ta: a.ta, start: Some(v) },
                            )
                        } else {
                            r == Err::<OutputArgsView, ErrorView>(
                                ErrorView::Regla(Regla::ArgumentoDeOutput),
                            )
                        },
                        _ => r == Err::<OutputArgsView, ErrorView>(
                            ErrorView::Regla(Regla::ArgumentoDeOutput),
                        ),
                    }
                },
            }
        }),
        con_metas(output_vacio(), Seq::empty()) == Ok::<OutputArgsView, ErrorView>(output_vacio()),
        start_de(Seq::empty()) is None,
        start_de(ms.push(m)) == match m {
            MetaArgView::NameValue(k, v) => if k == Some("start"@) {
                Some(v)
            } else {
                start_de(ms)
            },
            _ => start_de(ms),
        },
{
    lemma_metas(output_vacio(), ms, m);
    reveal_strlit("from");
    reveal_strlit("start");
    assert("from"@.len() != "start"@.len());
    assert(ms.push(m).drop_last() =~= ms);
}

// The protocol.

/// The passive interval is a million million seconds. A step under way waits for one kind of
/// event, the one that answers what it asked for, and one at rest for none.
pub proof fn ley_espera(d: DevsView, e: Evento)
    ensures
        INTERVALO_PASIVO == 1_000_000_000_000 * 1_000_000,
        d.espera(e) <==> match d.fase {
            Fase::Reposo => false,
            Fase::Vaciando => e is Vaciada,
            Fase::Llenando => e is Llenada,
            Fase::Emitiendo => e is Emitida,
            Fase::Leyendo => e is Leida,
            Fase::Transitando => e is Transitada,
        },
{
}

}
