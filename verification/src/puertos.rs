//! What a module says of a model: its component, the ports of its bags, the variants of the
//! enums that travel through them.

use crate::error::{vista, Error, ErrorView, Regla};
use crate::interfaz::{Access, AccessView, PortInfo, PortInfoView, SimKind};
use crate::listas::agrega;
use crate::sintaxis::{
    ArrayLen, ArrayLenView, AssocType, AssocTypeView, BagType, BagTypeView, DataType, DataTypeView,
    Field, FieldView, Item, ItemView, PathType, PathTypeView, PortType, PortTypeView,
};
use crate::texto::{a_decimal, decimal, es, une};
use vstd::prelude::*;
use vstd::string::*;

verus! {

/// The first type among the arguments of a segment.
pub open spec fn primer_tipo(args: Seq<Option<DataTypeView>>) -> Option<DataTypeView>
    decreases args.len(),
{
    if args.len() == 0 {
        None
    } else if args[0] is Some {
        args[0]
    } else {
        primer_tipo(args.drop_first())
    }
}

/// What a port carries: the first type argument of a path that ends in `Port`.
pub open spec fn dato_de(p: PathTypeView) -> Option<DataTypeView> {
    if p.segments.len() > 0 && p.segments.last().ident == "Port"@ {
        primer_tipo(p.segments.last().args)
    } else {
        None
    }
}

/// What a type carries as a port, if it is one.
pub open spec fn port_data_spec(ty: PortTypeView) -> Option<DataTypeView> {
    match ty.path {
        Some(p) => dato_de(p),
        None => None,
    }
}

/// What a port carries: the first type argument of a path that ends in `Port`.
fn dato<'a>(p: &'a PathType) -> (r: Option<&'a DataType>)
    ensures
        r.deep_view() == dato_de(p.deep_view()),
{
    let n: usize = p.segments.len();
    if n == 0 {
        return None;
    }
    let seg = &p.segments[n - 1];
    assert(seg.deep_view() == p.deep_view().segments.last());
    if !es(&seg.ident, "Port") {
        return None;
    }
    let ghost args = seg.args.deep_view();
    assert(args.skip(0) =~= args);
    let mut i: usize = 0;
    while i < seg.args.len()
        invariant
            i <= seg.args.len(),
            args == seg.args.deep_view(),
            args == p.deep_view().segments.last().args,
            dato_de(p.deep_view()) == primer_tipo(args.skip(i as int)),
        decreases seg.args.len() - i,
    {
        if let Some(d) = &seg.args[i] {
            assert(args.skip(i as int)[0] == Some(d.deep_view()));
            return Some(d);
        }
        assert(args.skip(i as int)[0] is None);
        assert(args.skip(i as int).drop_first() =~= args.skip(i + 1));
        i += 1;
    }
    None
}

/// From `Port<T, N>` takes `T`; any other type gives nothing.
pub fn port_data<'a>(ty: &'a PortType) -> (r: Option<&'a DataType>)
    ensures
        r.deep_view() == port_data_spec(ty.deep_view()),
{
    match &ty.path {
        Some(p) => dato(p),
        None => None,
    }
}

/// The name of the port at position `i`.
pub open spec fn nombre_en(prefix: Seq<char>, i: int) -> Seq<char> {
    prefix + "_"@ + decimal(i as nat)
}

/// The name of the port at position `i`.
fn nombra(prefix: &str, i: usize) -> (r: String)
    ensures
        r@ == nombre_en(prefix@, i as int),
{
    une(prefix, "_").concat(a_decimal(i).as_str())
}

/// The ports of a tuple: every element has to be one.
pub open spec fn puertos_de_tupla(elems: Seq<PortTypeView>, prefix: Seq<char>) -> Result<
    Seq<PortInfoView>,
    ErrorView,
> {
    if forall|i: int| 0 <= i < elems.len() ==> port_data_spec(#[trigger] elems[i]) is Some {
        Ok(
            Seq::new(
                elems.len(),
                |i: int|
                    PortInfoView {
                        access: AccessView::Tuple(i as nat),
                        data: port_data_spec(elems[i])->0,
                        base_name: nombre_en(prefix, i),
                    },
            ),
        )
    } else {
        Err(ErrorView::Regla(Regla::ElementoDeTupla))
    }
}

/// The message for a length that no array can have, as for any other literal that is too large.
pub const LARGO_DESMEDIDO: &'static str = "number too large to fit in target type";

/// The ports of an array: its element has to be one, and its length an integer literal.
pub open spec fn puertos_de_array(
    elem: PortTypeView,
    len: ArrayLenView,
    prefix: Seq<char>,
) -> Result<Seq<PortInfoView>, ErrorView> {
    match port_data_spec(elem) {
        None => Err(ErrorView::Regla(Regla::ElementoDeArray)),
        Some(data) => match len {
            ArrayLenView::NotLiteral => Err(ErrorView::Regla(Regla::LongitudDeArray)),
            ArrayLenView::Bad(e) => Err(ErrorView::Sintaxis(e)),
            ArrayLenView::Count(k) => if k > usize::MAX {
                Err(ErrorView::Sintaxis(LARGO_DESMEDIDO@))
            } else {
                Ok(
                    Seq::new(
                        k as nat,
                        |i: int|
                            PortInfoView {
                                access: AccessView::Array(i as nat),
                                data,
                                base_name: nombre_en(prefix, i),
                            },
                    ),
                )
            },
        },
    }
}

/// The rule that a field of a struct of ports breaks, if it breaks one.
pub open spec fn fallo_de_campo(f: FieldView) -> Option<Regla> {
    if f.ident is None {
        Some(Regla::PuertoSinNombre)
    } else if port_data_spec(f.ty) is None {
        Some(Regla::CampoNoEsPuerto)
    } else {
        None
    }
}

/// The ports of a struct of ports: every field has to be one, with a name. The first field that
/// breaks a rule decides which one is reported.
pub open spec fn puertos_de_struct(fields: Seq<FieldView>) -> Result<Seq<PortInfoView>, ErrorView>
    decreases fields.len(),
{
    if fields.len() == 0 {
        Ok(Seq::empty())
    } else {
        match puertos_de_struct(fields.drop_last()) {
            Err(e) => Err(e),
            Ok(ps) => {
                let f = fields.last();
                match fallo_de_campo(f) {
                    Some(r) => Err(ErrorView::Regla(r)),
                    None => Ok(
                        ps.push(
                            PortInfoView {
                                access: AccessView::Field(f.ident->0),
                                data: port_data_spec(f.ty)->0,
                                base_name: f.ident->0,
                            },
                        ),
                    ),
                }
            },
        }
    }
}

/// The fields of the first struct of that name in the module.
pub open spec fn struct_llamado(items: Seq<ItemView>, name: Seq<char>) -> Option<Seq<FieldView>>
    decreases items.len(),
{
    if items.len() == 0 {
        None
    } else {
        match items[0] {
            ItemView::Struct(n, fields) if n == name => Some(fields),
            _ => struct_llamado(items.drop_first(), name),
        }
    }
}

/// The ports of a bag.
pub open spec fn extract_ports_spec(
    ty: BagTypeView,
    items: Seq<ItemView>,
    prefix: Seq<char>,
) -> Result<Seq<PortInfoView>, ErrorView> {
    match ty {
        BagTypeView::Path(p) => match dato_de(p) {
            Some(data) => Ok(
                seq![PortInfoView { access: AccessView::Whole, data, base_name: prefix }],
            ),
            None => if p.segments.len() == 0 {
                Err(ErrorView::Regla(Regla::BolsaSinNombre))
            } else {
                let name = p.segments.last().ident;
                match struct_llamado(items, name) {
                    None => Err(ErrorView::BolsaDesconocida(name)),
                    Some(fields) => puertos_de_struct(fields),
                }
            },
        },
        BagTypeView::Tuple(elems) => puertos_de_tupla(elems, prefix),
        BagTypeView::Array(elem, len) => puertos_de_array(elem, len, prefix),
        BagTypeView::Other => Err(ErrorView::Regla(Regla::BolsaNoSoportada)),
    }
}

/// The ports of a tuple.
fn lee_tupla<'a>(elems: &'a Vec<PortType>, prefix: &str) -> (r: Result<Vec<PortInfo<'a>>, Error>)
    ensures
        vista(r) == puertos_de_tupla(elems.deep_view(), prefix@),
{
    let ghost ev = elems.deep_view();
    let mut ports: Vec<PortInfo<'a>> = Vec::new();
    let mut i: usize = 0;
    while i < elems.len()
        invariant
            i <= elems.len(),
            ev == elems.deep_view(),
            forall|k: int| 0 <= k < i ==> port_data_spec(#[trigger] ev[k]) is Some,
            ports.deep_view().len() == i,
            forall|k: int|
                0 <= k < i ==> #[trigger] ports.deep_view()[k] == (PortInfoView {
                    access: AccessView::Tuple(k as nat),
                    data: port_data_spec(ev[k])->0,
                    base_name: nombre_en(prefix@, k),
                }),
        decreases elems.len() - i,
    {
        assert(ev[i as int] == elems[i as int].deep_view());
        match port_data(&elems[i]) {
            None => {
                return Err(Error::Regla(Regla::ElementoDeTupla));
            },
            Some(data) => {
                let p = PortInfo { access: Access::Tuple(i), data, base_name: nombra(prefix, i) };
                agrega(&mut ports, p);
            },
        }
        i += 1;
    }
    proof {
        assert(puertos_de_tupla(ev, prefix@) is Ok);
        assert(ports.deep_view() =~= puertos_de_tupla(ev, prefix@)->Ok_0);
    }
    Ok(ports)
}

/// The ports of an array.
fn lee_array<'a>(elem: &'a PortType, len: &ArrayLen, prefix: &str) -> (r: Result<
    Vec<PortInfo<'a>>,
    Error,
>)
    ensures
        vista(r) == puertos_de_array(elem.deep_view(), len.deep_view(), prefix@),
{
    let data = match port_data(elem) {
        None => {
            return Err(Error::Regla(Regla::ElementoDeArray));
        },
        Some(data) => data,
    };
    let k: usize = match len {
        ArrayLen::NotLiteral => {
            return Err(Error::Regla(Regla::LongitudDeArray));
        },
        ArrayLen::Bad(e) => {
            return Err(Error::Sintaxis(e.clone()));
        },
        ArrayLen::Count(k) => {
            if *k > usize::MAX as u64 {
                return Err(Error::Sintaxis(LARGO_DESMEDIDO.to_owned()));
            }
            *k as usize
        },
    };
    let mut ports: Vec<PortInfo<'a>> = Vec::new();
    let ghost todo = puertos_de_array(elem.deep_view(), len.deep_view(), prefix@)->Ok_0;
    assert(ports.deep_view() =~= todo.take(0));
    let mut i: usize = 0;
    while i < k
        invariant
            i <= k,
            port_data_spec(elem.deep_view()) == Some(data.deep_view()),
            len.deep_view() == ArrayLenView::Count(k as u64),
            todo == puertos_de_array(elem.deep_view(), len.deep_view(), prefix@)->Ok_0,
            ports.deep_view() == todo.take(i as int),
        decreases k - i,
    {
        let p = PortInfo { access: Access::Array(i), data, base_name: nombra(prefix, i) };
        assert(p.deep_view() == todo[i as int]);
        agrega(&mut ports, p);
        i += 1;
        assert(ports.deep_view() =~= todo.take(i as int));
    }
    assert(todo.take(todo.len() as int) =~= todo);
    Ok(ports)
}

/// The ports of a struct of ports.
fn lee_struct<'a>(fields: &'a Vec<Field>) -> (r: Result<Vec<PortInfo<'a>>, Error>)
    ensures
        vista(r) == puertos_de_struct(fields.deep_view()),
{
    let ghost fv = fields.deep_view();
    let mut ports: Vec<PortInfo<'a>> = Vec::new();
    assert(fv.take(0) =~= Seq::empty());
    assert(ports.deep_view() =~= Seq::empty());
    let mut i: usize = 0;
    while i < fields.len()
        invariant
            i <= fields.len(),
            fv == fields.deep_view(),
            puertos_de_struct(fv.take(i as int)) == Ok::<Seq<PortInfoView>, ErrorView>(
                ports.deep_view(),
            ),
        decreases fields.len() - i,
    {
        let f = &fields[i];
        proof {
            assert(fv.take(i + 1).drop_last() =~= fv.take(i as int));
            assert(fv.take(i + 1).last() == f.deep_view());
            if fallo_de_campo(f.deep_view()) is Some {
                lemma_struct_fallido(fv, i as int);
            }
        }
        let name = match &f.ident {
            None => {
                return Err(Error::Regla(Regla::PuertoSinNombre));
            },
            Some(name) => name,
        };
        let data = match port_data(&f.ty) {
            None => {
                return Err(Error::Regla(Regla::CampoNoEsPuerto));
            },
            Some(data) => data,
        };
        let p = PortInfo { access: Access::Field(name.clone()), data, base_name: name.clone() };
        agrega(&mut ports, p);
        i += 1;
    }
    assert(fv.take(fv.len() as int) =~= fv);
    Ok(ports)
}

/// Once a field breaks a rule, what comes after it changes nothing.
proof fn lemma_struct_fallido(fields: Seq<FieldView>, i: int)
    requires
        0 <= i < fields.len(),
        puertos_de_struct(fields.take(i)) is Ok,
        fallo_de_campo(fields[i]) is Some,
    ensures
        puertos_de_struct(fields) == Err::<Seq<PortInfoView>, ErrorView>(
            ErrorView::Regla(fallo_de_campo(fields[i])->0),
        ),
    decreases fields.len(),
{
    let resto = fields.drop_last();
    if i == fields.len() - 1 {
        assert(resto =~= fields.take(i));
    } else {
        assert(resto.take(i) =~= fields.take(i));
        lemma_struct_fallido(resto, i);
    }
}

/// The fields of the first struct of that name in the module.
fn busca_struct<'a>(items: &'a Vec<Item>, name: &String) -> (r: Option<&'a Vec<Field>>)
    ensures
        r.deep_view() == struct_llamado(items.deep_view(), name@),
{
    let ghost iv = items.deep_view();
    assert(iv.skip(0) =~= iv);
    let mut i: usize = 0;
    while i < items.len()
        invariant
            i <= items.len(),
            iv == items.deep_view(),
            struct_llamado(iv, name@) == struct_llamado(iv.skip(i as int), name@),
        decreases items.len() - i,
    {
        proof {
            assert(iv.skip(i as int)[0] == items[i as int].deep_view());
            assert(iv.skip(i as int).drop_first() =~= iv.skip(i + 1));
        }
        if let Item::Struct(n, fields) = &items[i] {
            if *n == *name {
                return Some(fields);
            }
        }
        i += 1;
    }
    None
}

/// Reads the ports of a bag (`type Input`, `type Output`): one port, none, a tuple, an array or
/// a struct of ports.
pub fn extract_ports<'a>(ty: &'a BagType, items: &'a Vec<Item>, prefix: &str) -> (r: Result<
    Vec<PortInfo<'a>>,
    Error,
>)
    ensures
        vista(r) == extract_ports_spec(ty.deep_view(), items.deep_view(), prefix@),
{
    match ty {
        BagType::Path(p) => {
            if let Some(data) = dato(p) {
                let mut ports: Vec<PortInfo<'a>> = Vec::new();
                let port = PortInfo { access: Access::Whole, data, base_name: prefix.to_owned() };
                ports.push(port);
                assert(ports.deep_view() =~= seq![
                    PortInfoView {
                        access: AccessView::Whole,
                        data: data.deep_view(),
                        base_name: prefix@,
                    },
                ]);
                return Ok(ports);
            }
            let n: usize = p.segments.len();
            if n == 0 {
                return Err(Error::Regla(Regla::BolsaSinNombre));
            }
            let name = &p.segments[n - 1].ident;
            assert(p.segments[n - 1].deep_view() == p.deep_view().segments.last());
            match busca_struct(items, name) {
                None => Err(Error::BolsaDesconocida(name.clone())),
                Some(fields) => lee_struct(fields),
            }
        },
        BagType::Tuple(elems) => lee_tupla(elems, prefix),
        BagType::Array(elem, len) => lee_array(elem, len, prefix),
        BagType::Other => Err(Error::Regla(Regla::BolsaNoSoportada)),
    }
}

/// The associated type of that name; where it is given more than once, the last one.
pub open spec fn tipo_asociado(types: Seq<AssocTypeView>, name: Seq<char>) -> Option<BagTypeView>
    decreases types.len(),
{
    if types.len() == 0 {
        None
    } else if types.last().ident == name {
        Some(types.last().ty)
    } else {
        tipo_asociado(types.drop_last(), name)
    }
}

/// Whether a type is a path that ends in that identifier.
pub open spec fn termina_en(ty: Option<BagTypeView>, name: Seq<char>) -> bool {
    match ty {
        Some(BagTypeView::Path(p)) => p.segments.len() > 0 && p.segments.last().ident == name,
        _ => false,
    }
}

/// Whether an item is an `impl` of a trait whose path ends in that identifier.
pub open spec fn implementa(item: ItemView, name: Seq<char>) -> bool {
    match item {
        ItemView::Impl(Some(idents), _, _) => idents.len() > 0 && idents.last() == name,
        _ => false,
    }
}

/// Whether an item is the `impl Component` of a model of the kind.
pub open spec fn es_componente(item: ItemView, kind: SimKind) -> bool {
    implementa(item, "Component"@) && match item {
        ItemView::Impl(_, _, types) => termina_en(
            tipo_asociado(types, "Kind"@),
            kind.kind_ty_name_spec(),
        ),
        _ => false,
    }
}

/// The model of the first component of the kind: its type, its input bag and its output bag.
/// A component without one of the bags gives nothing.
pub open spec fn find_component_spec(items: Seq<ItemView>, kind: SimKind) -> Option<
    (PortTypeView, BagTypeView, BagTypeView),
>
    decreases items.len(),
{
    if items.len() == 0 {
        None
    } else if es_componente(items[0], kind) {
        match items[0] {
            ItemView::Impl(_, self_ty, types) => match (
                tipo_asociado(types, "Input"@),
                tipo_asociado(types, "Output"@),
            ) {
                (Some(input), Some(output)) => Some((self_ty, input, output)),
                _ => None,
            },
            _ => None,
        }
    } else {
        find_component_spec(items.drop_first(), kind)
    }
}

/// The associated type of that name.
fn busca_tipo<'a>(types: &'a Vec<AssocType>, name: &str) -> (r: Option<&'a BagType>)
    ensures
        r.deep_view() == tipo_asociado(types.deep_view(), name@),
{
    let ghost tv = types.deep_view();
    let mut r: Option<&'a BagType> = None;
    let mut i: usize = 0;
    while i < types.len()
        invariant
            i <= types.len(),
            tv == types.deep_view(),
            r.deep_view() == tipo_asociado(tv.take(i as int), name@),
        decreases types.len() - i,
    {
        proof {
            assert(tv.take(i + 1).drop_last() =~= tv.take(i as int));
            assert(tv.take(i + 1).last() == types[i as int].deep_view());
        }
        if es(&types[i].ident, name) {
            r = Some(&types[i].ty);
        }
        i += 1;
    }
    assert(tv.take(tv.len() as int) =~= tv);
    r
}

/// Whether a type is a path that ends in that identifier.
fn acaba_en(ty: Option<&BagType>, name: &str) -> (r: bool)
    ensures
        r == termina_en(ty.deep_view(), name@),
{
    match ty {
        Some(BagType::Path(p)) => {
            let n: usize = p.segments.len();
            if n == 0 {
                return false;
            }
            assert(p.segments[n - 1].deep_view() == p.deep_view().segments.last());
            es(&p.segments[n - 1].ident, name)
        },
        _ => false,
    }
}

/// Whether an item is an `impl` of a trait whose path ends in that identifier.
fn es_impl_de(item: &Item, name: &str) -> (r: bool)
    ensures
        r == implementa(item.deep_view(), name@),
{
    match item {
        Item::Impl(Some(idents), _, _) => {
            let n: usize = idents.len();
            if n == 0 {
                return false;
            }
            assert(idents.deep_view().last() == idents[n - 1]@);
            es(&idents[n - 1], name)
        },
        _ => false,
    }
}

/// Finds the model: the `impl Component` whose `type Kind` is that of the kind, so that in a
/// module with several components the right one is taken. Gives its type and its two bags.
pub fn find_component<'a>(items: &'a Vec<Item>, kind: SimKind) -> (r: Option<
    (&'a PortType, &'a BagType, &'a BagType),
>)
    ensures
        r.deep_view() == find_component_spec(items.deep_view(), kind),
{
    let ghost iv = items.deep_view();
    assert(iv.skip(0) =~= iv);
    let mut i: usize = 0;
    while i < items.len()
        invariant
            i <= items.len(),
            iv == items.deep_view(),
            find_component_spec(iv, kind) == find_component_spec(iv.skip(i as int), kind),
        decreases items.len() - i,
    {
        proof {
            assert(iv.skip(i as int)[0] == items[i as int].deep_view());
            assert(iv.skip(i as int).drop_first() =~= iv.skip(i + 1));
        }
        if es_impl_de(&items[i], "Component") {
            if let Item::Impl(_, self_ty, types) = &items[i] {
                if acaba_en(busca_tipo(types, "Kind"), kind.kind_ty_name()) {
                    return match (busca_tipo(types, "Input"), busca_tipo(types, "Output")) {
                        (Some(input), Some(output)) => Some((self_ty, input, output)),
                        _ => None,
                    };
                }
            }
        }
        i += 1;
    }
    None
}

/// Whether some `impl` of the module is of a trait whose path ends in that identifier.
pub fn has_impl_named(items: &Vec<Item>, name: &str) -> (r: bool)
    ensures
        r == exists|k: int|
            0 <= k < items.deep_view().len() && implementa(
                #[trigger] items.deep_view()[k],
                name@,
            ),
{
    let mut i: usize = 0;
    while i < items.len()
        invariant
            i <= items.len(),
            forall|k: int| 0 <= k < i ==> !implementa(#[trigger] items.deep_view()[k], name@),
        decreases items.len() - i,
    {
        assert(items.deep_view()[i as int] == items[i as int].deep_view());
        if es_impl_de(&items[i], name) {
            return true;
        }
        i += 1;
    }
    false
}

/// The variants of the first enum of that name in the module.
pub open spec fn enum_llamado(items: Seq<ItemView>, name: Seq<char>) -> Option<Seq<Seq<char>>>
    decreases items.len(),
{
    if items.len() == 0 {
        None
    } else {
        match items[0] {
            ItemView::Enum(n, variants) if n == name => Some(variants),
            _ => enum_llamado(items.drop_first(), name),
        }
    }
}

/// The last identifier of a type that is a path.
pub open spec fn ultimo_ident(ty: DataTypeView) -> Option<Seq<char>> {
    match ty.idents {
        Some(ids) if ids.len() > 0 => Some(ids.last()),
        _ => None,
    }
}

/// The variants of a type that is an enum of the module.
pub open spec fn variantes_de(items: Seq<ItemView>, ty: DataTypeView) -> Option<Seq<Seq<char>>> {
    match ultimo_ident(ty) {
        Some(name) => enum_llamado(items, name),
        None => None,
    }
}

/// The last identifier of a type that is a path.
fn ident_final<'a>(ty: &'a DataType) -> (r: Option<&'a String>)
    ensures
        r.deep_view() == ultimo_ident(ty.deep_view()),
{
    match &ty.idents {
        Some(ids) => {
            let n: usize = ids.len();
            if n == 0 {
                return None;
            }
            assert(ids.deep_view().last() == ids[n - 1]@);
            Some(&ids[n - 1])
        },
        None => None,
    }
}

/// If a type is an enum defined in the module, gives its variants.
pub fn find_enum_variants<'a>(items: &'a Vec<Item>, data_ty: &DataType) -> (r: Option<
    &'a Vec<String>,
>)
    ensures
        r.deep_view() == variantes_de(items.deep_view(), data_ty.deep_view()),
{
    let name = match ident_final(data_ty) {
        None => {
            return None;
        },
        Some(name) => name,
    };
    let ghost iv = items.deep_view();
    assert(iv.skip(0) =~= iv);
    let mut i: usize = 0;
    while i < items.len()
        invariant
            i <= items.len(),
            iv == items.deep_view(),
            enum_llamado(iv, name@) == enum_llamado(iv.skip(i as int), name@),
            variantes_de(iv, data_ty.deep_view()) == enum_llamado(iv, name@),
        decreases items.len() - i,
    {
        proof {
            assert(iv.skip(i as int)[0] == items[i as int].deep_view());
            assert(iv.skip(i as int).drop_first() =~= iv.skip(i + 1));
        }
        if let Item::Enum(n, variants) = &items[i] {
            if *n == *name {
                return Some(variants);
            }
        }
        i += 1;
    }
    None
}

/// Whether that is the name of an integer type whose variables start at `0`.
pub open spec fn es_entero(name: Seq<char>) -> bool {
    ||| name == "i8"@
    ||| name == "i16"@
    ||| name == "i32"@
    ||| name == "i64"@
    ||| name == "isize"@
    ||| name == "u8"@
    ||| name == "u16"@
    ||| name == "u32"@
    ||| name == "u64"@
    ||| name == "usize"@
}

/// The start value of a variable of that type, unless another is declared.
pub open spec fn default_start_spec(ty: DataTypeView) -> Seq<char> {
    match ultimo_ident(ty) {
        Some(name) => if name == "bool"@ {
            "false"@
        } else if es_entero(name) {
            "0"@
        } else {
            "0.0"@
        },
        None => "0.0"@,
    }
}

/// The start value of a variable of that type: `false` for a `bool`, `0` for an integer, `0.0`
/// for anything else.
pub fn default_start(ty: &DataType) -> (r: String)
    ensures
        r@ == default_start_spec(ty.deep_view()),
{
    match ident_final(ty) {
        Some(n) => {
            if es(n, "bool") {
                "false".to_owned()
            } else if es(n, "i8") || es(n, "i16") || es(n, "i32") || es(n, "i64") || es(n, "isize")
                || es(n, "u8") || es(n, "u16") || es(n, "u32") || es(n, "u64") || es(n, "usize") {
                "0".to_owned()
            } else {
                "0.0".to_owned()
            }
        },
        None => "0.0".to_owned(),
    }
}

}
