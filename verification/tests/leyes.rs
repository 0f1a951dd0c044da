use xdevs_fmi::expansion::{expand_mod, expand_struct, parse_output_args, MacroArgs};
use xdevs_fmi::error::{Error, Regla};
use xdevs_fmi::genera::{campos_de, gen, Campo};
use xdevs_fmi::interfaz::{Access, SimKind, Spec};
use xdevs_fmi::lectura::{lee_cuerpo, lee_decl, ModText};
use xdevs_fmi::macros::{dispatch, expande, inserta, lee_pedido};
use xdevs_fmi::puertos::{
    extract_ports, find_component, find_enum_variants, has_impl_named, port_data,
};
use xdevs_fmi::sintaxis::{
    ArgPair, ArrayLen, AssocType, BagType, DataType, Field, Item, MetaArg, PathType, PortType,
    Segment,
};

fn dato(nombre: &str) -> DataType {
    DataType { text: nombre.to_string(), idents: Some(vec![nombre.to_string()]) }
}

fn ruta(nombre: &str, args: Vec<Option<DataType>>) -> PathType {
    PathType {
        text: nombre.to_string(),
        segments: vec![
            Segment { ident: "xdevs".to_string(), args: Vec::new() },
            Segment { ident: nombre.to_string(), args },
        ],
    }
}

fn puerto(nombre: &str) -> PortType {
    PortType {
        text: format!("Port<{nombre}, 1>"),
        path: Some(ruta("Port", vec![Some(dato(nombre)), None])),
    }
}

fn componente(modelo: &str, kind: &str) -> Item {
    let bolsa = || BagType::Tuple(Vec::new());
    Item::Impl(
        Some(vec!["xdevs".to_string(), "Component".to_string()]),
        PortType { text: modelo.to_string(), path: Some(ruta(modelo, Vec::new())) },
        vec![
            AssocType { ident: "Input".to_string(), ty: bolsa() },
            AssocType { ident: "Output".to_string(), ty: bolsa() },
            AssocType { ident: "Kind".to_string(), ty: BagType::Path(ruta(kind, Vec::new())) },
        ],
    )
}

fn nombre_de(c: &Campo) -> &str {
    match c {
        Campo::Reloj { nombre, .. } => nombre,
        Campo::Variable { nombre, .. } => nombre,
        Campo::Sim { .. } => "sim",
    }
}

fn spec_de(args: &str, item: &str, kind: SimKind) -> Spec {
    match lee_pedido(args, item, kind) {
        Ok((s, _)) => s,
        Err(e) => panic!("{}", e.mensaje()),
    }
}

const SENSOR: &str = "mod m { enum Nivel { Bajo, Alto } \
    struct E { pulso: Port<bool, 1>, valor: Port<f64, 1> } \
    struct S { media: Port<f64, 1>, nivel: Port<Nivel, 1> } \
    impl Component for Sensor { type Input = E; type Output = S; type Kind = AtomicKind; } \
    impl Atomic for Sensor {} }";

#[test]
fn las_referencias_salen_del_orden_de_los_campos() {
    let s = spec_de("", SENSOR, SimKind::Atomic);
    let cs = campos_de(&s);
    let nombres: Vec<&str> = cs.iter().map(nombre_de).collect();
    assert_eq!(
        nombres,
        [
            "ta", "pulso_ev", "pulso", "valor_ev", "valor", "media", "nivel_bajo", "nivel_alto",
            "sim",
        ]
    );
}

#[test]
fn toda_variable_lleva_relojes_de_la_fmu() {
    let s = spec_de(
        "model = M, init = M",
        "struct F { #[input] a: bool, #[input] b: u8, #[output] c: f64, #[output(ta)] d: f64 }",
        SimKind::Atomic,
    );
    let cs = campos_de(&s);
    let relojes: Vec<&str> = cs
        .iter()
        .filter_map(|c| match c {
            Campo::Reloj { nombre, .. } => Some(nombre.as_str()),
            _ => None,
        })
        .collect();
    assert_eq!(relojes, ["ta", "a_ev", "b_ev"]);
    let de_cada_una: Vec<String> = cs
        .iter()
        .filter_map(|c| match c {
            Campo::Variable { nombre, clocks, .. } => Some(format!("{nombre}: {}", clocks.join(" "))),
            _ => None,
        })
        .collect();
    assert_eq!(de_cada_una, ["a: a_ev", "b: b_ev", "c: ta", "d: ta a_ev b_ev"]);
    let countdown: Vec<bool> = cs
        .iter()
        .filter_map(|c| match c {
            Campo::Reloj { countdown, .. } => Some(*countdown),
            _ => None,
        })
        .collect();
    assert_eq!(countdown, [true, false, false]);
}

#[test]
fn cada_forma_de_bolsa_da_sus_puertos() {
    let items = vec![
        Item::Other,
        Item::Struct(
            "Bolsa".to_string(),
            vec![
                Field { ident: Some("uno".to_string()), ty: puerto("bool") },
                Field { ident: Some("dos".to_string()), ty: puerto("u8") },
            ],
        ),
    ];
    let describe = |b: &BagType| -> Vec<String> {
        match extract_ports(b, &items, "input") {
            Ok(ps) => ps
                .iter()
                .map(|p| format!("{} {} {}", p.access.of("b"), p.base_name, p.data.text))
                .collect(),
            Err(e) => vec![e.mensaje()],
        }
    };
    assert_eq!(
        describe(&BagType::Path(ruta("Port", vec![None, Some(dato("bool"))]))),
        ["b input bool"]
    );
    assert_eq!(describe(&BagType::Tuple(Vec::new())), Vec::<String>::new());
    assert_eq!(
        describe(&BagType::Tuple(vec![puerto("bool"), puerto("f64")])),
        ["b.0 input_0 bool", "b.1 input_1 f64"]
    );
    let doce = describe(&BagType::Array(puerto("u8"), ArrayLen::Count(12)));
    assert_eq!(doce.len(), 12);
    assert_eq!(doce[11], "b[11usize] input_11 u8");
    assert_eq!(
        describe(&BagType::Path(ruta("Bolsa", Vec::new()))),
        ["b.uno uno bool", "b.dos dos u8"]
    );
    assert_eq!(
        describe(&BagType::Array(puerto("u8"), ArrayLen::Bad("mal".to_string()))),
        ["mal"]
    );
    assert_eq!(
        describe(&BagType::Path(PathType { text: String::new(), segments: Vec::new() })),
        ["tipo de bolsa sin nombre"]
    );
}

#[test]
fn port_data_toma_el_primer_tipo() {
    assert_eq!(port_data(&puerto("bool")).unwrap().text, "bool");
    let otro = PortType { text: "Puerta<u8>".to_string(), path: Some(ruta("Puerta", vec![Some(dato("u8"))])) };
    assert!(port_data(&otro).is_none());
    assert!(port_data(&PortType { text: "()".to_string(), path: None }).is_none());
    let solo_numero = PortType { text: "Port<1>".to_string(), path: Some(ruta("Port", vec![None])) };
    assert!(port_data(&solo_numero).is_none());
}

#[test]
fn el_primer_componente_de_la_clase_es_el_modelo() {
    let items = vec![
        componente("A", "AtomicKind"),
        componente("B", "CoupledKind"),
        componente("C", "CoupledKind"),
    ];
    assert_eq!(find_component(&items, SimKind::Atomic).unwrap().0.text, "A");
    assert_eq!(find_component(&items, SimKind::Coupled).unwrap().0.text, "B");
    let atomos = vec![componente("A", "AtomicKind"), Item::Other];
    assert!(find_component(&atomos, SimKind::Coupled).is_none());
    assert!(has_impl_named(&items, "Component"));
    assert!(!has_impl_named(&items, "Atomic"));
}

#[test]
fn un_componente_sin_bolsa_no_deja_buscar_mas() {
    let incompleto = Item::Impl(
        Some(vec!["Component".to_string()]),
        puerto("A"),
        vec![AssocType { ident: "Kind".to_string(), ty: BagType::Path(ruta("AtomicKind", Vec::new())) }],
    );
    let items = vec![incompleto, componente("B", "AtomicKind")];
    assert!(find_component(&items, SimKind::Atomic).is_none());
}

#[test]
fn un_enum_da_una_variable_por_cada_variante() {
    let items = vec![Item::Enum("Nivel".to_string(), vec!["Bajo".to_string(), "MuyAlto".to_string()])];
    assert_eq!(find_enum_variants(&items, &dato("Nivel")).unwrap().len(), 2);
    assert!(find_enum_variants(&items, &dato("Otro")).is_none());
    assert!(find_enum_variants(&items, &DataType { text: "[Nivel]".to_string(), idents: None }).is_none());
    let s = spec_de("", SENSOR, SimKind::Atomic);
    let nivel = &s.out_ports[1];
    assert!(matches!(&nivel.access, Access::Field(n) if n == "nivel"));
    assert_eq!(nivel.vars[0].from.as_deref(), Some("|__s: Nivel| if __s == Nivel::Bajo { 1.0 } else { 0.0 }"));
    assert_eq!(nivel.vars[1].from.as_deref(), Some("|__s: Nivel| if __s == Nivel::Alto { 1.0 } else { 0.0 }"));
    assert_eq!(nivel.vars[1].ty, "f64");
    assert_eq!(nivel.vars[1].start, "0.0");
}

#[test]
fn el_acoplado_solo_cambia_la_simulacion() {
    let args = "model = M, init = M::new()";
    let item = "struct F { #[input] a: bool, #[output] b: f64 }";
    let atomo = gen(&spec_de(args, item, SimKind::Atomic));
    let acoplado = gen(&spec_de(args, item, SimKind::Coupled));
    assert_ne!(atomo, acoplado);
    assert_eq!(
        atomo.replace("Simulator", "Coordinator").replace("DevsFmu::atomic", "DevsFmu::coupled"),
        acoplado
    );
}

#[test]
fn lo_volcado_es_lo_que_se_usa() {
    let args = "model = M, init = M::new()";
    let item = "struct F { #[input] a: bool, #[output] b: f64 }";
    let e = dispatch(args, item, SimKind::Atomic);
    assert_eq!(e.salida, e.volcado.unwrap().codigo);
    let e = expande(spec_de(args, item, SimKind::Coupled), None);
    assert_eq!(e.volcado.unwrap().name, "F");
}

#[test]
fn el_modulo_conserva_sus_atributos_y_sus_items() {
    let item = "#[allow(dead_code)] pub(crate) mod m { #![allow(unused)] use a::b; \
        impl Component for M { type Input = (); type Output = (); type Kind = AtomicKind; } \
        impl Atomic for M {} }";
    let (s, m) = match lee_pedido("", item, SimKind::Atomic) {
        Ok(p) => p,
        Err(e) => panic!("{}", e.mensaje()),
    };
    let m = m.unwrap();
    assert_eq!(m.ident, "m");
    assert_eq!(m.items.as_ref().unwrap().len(), 3);
    assert_eq!(lee_cuerpo(&m).unwrap().len(), 3);
    let sin_espacios = |t: &str| t.replace([' ', '\n'], "");
    let salida = expande(s, Some(m)).salida;
    let salida = sin_espacios(&salida);
    assert!(salida.starts_with("#[allow(dead_code)]pub(crate)modm{#![allow(unused)]usea::b;implComponentforM{"));
    assert!(salida.ends_with("::fmi_export::export_fmu!(MFmu);}"));
}

#[test]
fn los_items_nuevos_van_detras_de_los_del_modulo() {
    let modulo = |items: Vec<&str>| ModText {
        attrs: vec![(true, "#![b]".to_string()), (false, "#[a]".to_string())],
        vis: "pub".to_string(),
        unsafety: String::new(),
        ident: "m".to_string(),
        items: Some(items.iter().map(|t| t.to_string()).collect()),
    };
    let nuevos = vec!["struct C;".to_string()];
    let esperado = "#[a]\npub  mod m {\n#![b]\nstruct A;\nstruct B;\nstruct C;\n}\n";
    assert_eq!(inserta(&modulo(vec!["struct A;", "struct B;"]), &nuevos), esperado);
    assert_eq!(inserta(&modulo(vec!["struct A;", "struct B;", "struct C;"]), &Vec::new()), esperado);
}

#[test]
fn los_pares_se_leen_en_orden() {
    let par = |key: &str, path: Option<&str>, value: &str| ArgPair {
        key: Some(key.to_string()),
        path: path.map(|p| p.to_string()),
        value: value.to_string(),
    };
    let a = match MacroArgs::parse(vec![par("model", Some("M"), "M"), par("init", None, "1"), par("init", None, "2")]) {
        Ok(a) => a,
        Err(e) => panic!("{}", e.mensaje()),
    };
    assert_eq!(a.model.as_deref(), Some("M"));
    assert_eq!(a.init.as_deref(), Some("2"));
    assert!(matches!(
        MacroArgs::parse(vec![par("otra", None, "1"), par("model", None, "2")]),
        Err(Error::ClaveDesconocida(k)) if k == "otra"
    ));
    assert!(matches!(
        MacroArgs::parse(vec![par("model", None, "2"), par("otra", None, "1")]),
        Err(Error::Regla(Regla::ModelNoEsTipo))
    ));
}

#[test]
fn los_argumentos_de_una_salida() {
    let id = |n: &str| Some(n.to_string());
    let metas = vec![
        MetaArg::NameValue(id("from"), "f".to_string()),
        MetaArg::Path(id("ta")),
        MetaArg::NameValue(id("start"), "1".to_string()),
    ];
    let a = match parse_output_args(&metas) {
        Ok(a) => a,
        Err(e) => panic!("{}", e.mensaje()),
    };
    assert_eq!(a.from.as_deref(), Some("f"));
    assert!(a.ta);
    assert_eq!(a.start.as_deref(), Some("1"));
    assert!(parse_output_args(&vec![MetaArg::Path(id("from"))]).is_err());
    assert!(parse_output_args(&vec![MetaArg::NameValue(None, "f".to_string())]).is_err());
    assert!(parse_output_args(&vec![MetaArg::List]).is_err());
}

#[test]
fn cada_campo_declarado_es_una_variable() {
    let d = match lee_decl(
        "struct F { #[input] #[output] a: bool, #[output(ta, start = 3)] b: f64, #[output] c: u8 }",
    ) {
        Ok(d) => d,
        Err(e) => panic!("{e}"),
    };
    let args = MacroArgs { model: Some("M".to_string()), init: Some("M".to_string()) };
    let s = match expand_struct(&args, &d, SimKind::Atomic) {
        Ok(s) => s,
        Err(e) => panic!("{}", e.mensaje()),
    };
    assert_eq!(s.in_ports.len(), 1);
    let salidas: Vec<&str> = s.out_ports[0].vars.iter().map(|v| v.field.as_str()).collect();
    assert_eq!(salidas, ["a", "c"]);
    assert_eq!(s.ta_outputs[0].field, "b");
    assert_eq!(s.ta_outputs[0].start, "3");
}

#[test]
fn un_modelo_que_no_es_una_ruta_se_rechaza() {
    let args = MacroArgs { model: None, init: None };
    let sin_segmentos = PathType { text: String::new(), segments: Vec::new() };
    let mut items = vec![componente("A", "AtomicKind")];
    items.push(Item::Impl(Some(vec!["Atomic".to_string()]), puerto("A"), Vec::new()));
    if let Item::Impl(_, ty, _) = &mut items[0] {
        ty.path = Some(sin_segmentos);
    }
    assert!(matches!(
        expand_mod(&args, &Some(items), SimKind::Atomic),
        Err(Error::Regla(Regla::ModeloSinNombre))
    ));
    assert!(matches!(
        expand_mod(&args, &None, SimKind::Atomic),
        Err(Error::Regla(Regla::ModuloSinCuerpo))
    ));
}
