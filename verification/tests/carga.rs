use xdevs_fmi::carga::{codigo_de, lugar_de, CargaFmi};

#[derive(Debug, Clone, Copy, PartialEq)]
enum Fase {
    Parado,
    Acelerando,
    Crucero,
    Averiado,
}

const LISTA: [Fase; 3] = [Fase::Parado, Fase::Acelerando, Fase::Crucero];

impl CargaFmi for Fase {
    fn variantes() -> &'static [&'static str] {
        &["Parado", "Acelerando", "Crucero"]
    }

    fn codigo(&self) -> i32 {
        codigo_de(&[*self == LISTA[0], *self == LISTA[1], *self == LISTA[2]])
    }

    fn desde_codigo(codigo: i32) -> Option<Self> {
        lugar_de(codigo, LISTA.len()).map(|i| LISTA[i])
    }
}

#[test]
fn el_enum_se_traduce_a_codigo_y_vuelve() {
    assert_eq!(Fase::Parado.codigo(), 0);
    assert_eq!(Fase::Acelerando.codigo(), 1);
    assert_eq!(Fase::Crucero.codigo(), 2);
    assert_eq!(Fase::desde_codigo(2), Some(Fase::Crucero));
    assert_eq!(Fase::desde_codigo(7), None);
}

#[test]
fn el_enum_da_una_variable_por_variante() {
    assert_eq!(Fase::n_variables(), 3);
    assert_eq!(Fase::variantes(), &["Parado", "Acelerando", "Crucero"]);
    let mut activa = [false; 3];
    Fase::Acelerando.una_por_variante(&mut activa);
    let v = activa.map(|x| if x { 1.0 } else { 0.0 });
    assert_eq!(v, [0.0, 1.0, 0.0], "one-hot: solo la variante activa a 1.0");
}

#[test]
fn los_primitivos_ya_vienen_implementados() {
    assert_eq!(true.codigo(), 1);
    assert_eq!(bool::desde_codigo(0), Some(false));
}

#[test]
fn el_bool_completo() {
    assert_eq!(false.codigo(), 0);
    assert_eq!(bool::desde_codigo(1), Some(true));
    assert_eq!(bool::desde_codigo(2), None);
    assert_eq!(bool::desde_codigo(-1), None);
    assert_eq!(bool::variantes(), &["false", "true"]);
    assert_eq!(bool::n_variables(), 2);
}

#[test]
fn una_variante_fuera_de_la_lista_no_tiene_lugar() {
    assert_eq!(Fase::Averiado.codigo(), -1);
    assert_eq!(Fase::desde_codigo(-1), None);
    let mut v = [true; 3];
    Fase::Averiado.una_por_variante(&mut v);
    assert_eq!(v, [false, false, false]);
}

#[test]
fn los_lugares_de_mas_no_se_tocan() {
    let mut v = [true; 5];
    Fase::Parado.una_por_variante(&mut v);
    assert_eq!(v, [true, false, false, true, true]);
    let mut corto = [false; 1];
    Fase::Crucero.una_por_variante(&mut corto);
    assert_eq!(corto, [false]);
}

#[test]
fn el_primero_que_coincide_da_el_codigo() {
    assert_eq!(codigo_de(&[]), -1);
    assert_eq!(codigo_de(&[false, true, true]), 1);
    assert_eq!(lugar_de(0, 0), None);
    assert_eq!(lugar_de(2, 3), Some(2));
    assert_eq!(lugar_de(3, 3), None);
    assert_eq!(lugar_de(i32::MIN, 3), None);
}
