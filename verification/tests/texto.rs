use xdevs_fmi::interfaz::{Access, SimKind};
use xdevs_fmi::puertos::default_start;
use xdevs_fmi::sintaxis::DataType;
use xdevs_fmi::{pascal, to_snake};

#[test]
fn pascal_une_las_palabras() {
    assert_eq!(pascal("pulso_ev"), "PulsoEv");
    assert_eq!(pascal("__a__b_"), "AB");
    assert_eq!(pascal(""), "");
    assert_eq!(pascal("_"), "");
    assert_eq!(pascal("yaEsta"), "YaEsta");
    assert_eq!(pascal("ñu_1x"), "Ñu1x");
    assert_eq!(pascal("ßa"), "SSa");
}

#[test]
fn pascal_va_palabra_por_palabra() {
    let textos = ["", "_", "__", "a", "_a", "a_", "a__b", "HTTP", "hTTP_x", "ñu", "1x"];
    for a in textos {
        assert!(!pascal(a).contains('_'));
        for b in textos {
            assert_eq!(pascal(&format!("{a}_{b}")), format!("{}{}", pascal(a), pascal(b)));
        }
    }
    assert_eq!(pascal("hTTPs"), "HTTPs");
}

#[test]
fn pascal_no_deja_guiones_con_ninguna_letra() {
    for c in '\0'..=char::MAX {
        assert!(!pascal(&format!("{c}_{c}")).contains('_'));
    }
}

#[test]
fn snake_no_deja_mayusculas() {
    for (v, largo) in [("", 0), ("A", 1), ("abc_1", 5), ("NivelAlto", 10), ("HTTP", 7), ("aB", 3)] {
        let s = to_snake(v);
        assert_eq!(s.len(), largo);
        assert!(!s.chars().any(|c| c.is_ascii_uppercase()));
        assert_eq!(to_snake(&s), s);
        assert_eq!(s == v, !v.chars().any(|c| c.is_ascii_uppercase()));
    }
    assert_eq!(pascal(&to_snake("1Nivel")), "1Nivel");
}

#[test]
fn snake_separa_las_mayusculas() {
    assert_eq!(to_snake("NivelAlto"), "nivel_alto");
    assert_eq!(to_snake("Green"), "green");
    assert_eq!(to_snake("HTTP"), "h_t_t_p");
    assert_eq!(to_snake("aB"), "a_b");
    assert_eq!(to_snake(""), "");
    assert_eq!(to_snake("ÑuÁrea"), "ñu_área");
}

#[test]
fn una_variante_va_y_vuelve() {
    assert_eq!(pascal(&to_snake("NivelAlto2")), "NivelAlto2");
}

#[test]
fn acceso_a_cada_puerto() {
    assert_eq!(Access::Whole.of("inp"), "inp");
    assert_eq!(Access::Tuple(0).of("inp"), "inp.0");
    assert_eq!(Access::Tuple(120).of("inp"), "inp.120");
    assert_eq!(Access::Array(37).of("out"), "out[37usize]");
    assert_eq!(Access::Field("nivel".to_string()).of("out"), "out.nivel");
}

#[test]
fn nombres_de_cada_clase_de_modelo() {
    assert_eq!(SimKind::Atomic.trait_name(), "Atomic");
    assert_eq!(SimKind::Coupled.trait_name(), "Coupled");
    assert_eq!(SimKind::Atomic.kind_ty_name(), "AtomicKind");
    assert_eq!(SimKind::Coupled.kind_ty_name(), "CoupledKind");
    assert_eq!(SimKind::Atomic.ctor(), "atomic");
    assert_eq!(SimKind::Coupled.ctor(), "coupled");
    assert_eq!(SimKind::Atomic.sim_ty("M"), "::xdevs_fmi::Simulator< M >");
    assert_eq!(SimKind::Coupled.sim_ty("M"), "::xdevs_fmi::Coordinator< M >");
}

fn dato(ruta: &[&str]) -> DataType {
    DataType {
        text: ruta.join(" :: "),
        idents: Some(ruta.iter().map(|s| s.to_string()).collect()),
    }
}

#[test]
fn el_valor_inicial_sale_del_tipo() {
    assert_eq!(default_start(&dato(&["bool"])), "false");
    for t in ["i8", "i16", "i32", "i64", "isize", "u8", "u16", "u32", "u64", "usize"] {
        assert_eq!(default_start(&dato(&[t])), "0");
    }
    assert_eq!(default_start(&dato(&["core", "primitive", "u8"])), "0");
    assert_eq!(default_start(&dato(&["f64"])), "0.0");
    assert_eq!(default_start(&dato(&["u128"])), "0.0");
    assert_eq!(default_start(&dato(&[])), "0.0");
    assert_eq!(default_start(&DataType { text: "(u8,)".to_string(), idents: None }), "0.0");
}
