use std::str::FromStr;
use xdevs_fmi::error::{Error, Regla};
use xdevs_fmi::genera::gen;
use xdevs_fmi::interfaz::{Access, InPort, OutPort, OutVar, SimKind, Spec, SpecTaOut};
use xdevs_fmi::macros::{archivo_generado, codigo_mostrado, lee_pedido};
use xdevs_fmi::{atomic2fmu, coupled2fmu};

/// The tokens of some source text, in a single spelling.
fn tokens(texto: &str) -> String {
    proc_macro2::TokenStream::from_str(texto).unwrap().to_string()
}

const SEMAFORO: &str = r#"
mod semaforo_fmu {
    use xdevs::{Duration, Port};

    #[derive(Debug, Clone, Copy, PartialEq, Eq)]
    pub enum SemaphoreState {
        Green,
        Red,
    }

    pub struct Semaphore {
        sigma: Duration,
        state: SemaphoreState,
    }

    impl xdevs::Component for Semaphore {
        type Input = Port<bool, 1>;
        type Output = Port<SemaphoreState, 1>;
        type Kind = xdevs::AtomicKind;
    }

    impl xdevs::Atomic for Semaphore {
        fn ta(&self) -> Duration {
            self.sigma
        }
    }

    impl Semaphore {
        pub fn new(red_period: Duration, green_period: Duration) -> Self {
            todo(red_period, green_period)
        }
    }
}
"#;

const INIT: &str = "init = Semaphore::new(Duration::from_secs(30), Duration::from_secs(15))";

const SEMAFORO_FMU: &str = r#"
#[derive(::fmi_export::FmuModel)]
#[model(
    model_exchange = false,
    co_simulation = false,
    scheduled_execution = true,
    user_model = false,
    vr_enum = true
)]
pub struct SemaphoreFmu {
    #[variable(causality = Input, interval_variability = Countdown)]
    ta: ::fmi_export::fmi3::Clock,
    #[variable(causality = Input, interval_variability = Triggered)]
    input_ev: ::fmi_export::fmi3::Clock,
    #[variable(causality = Input, variability = Discrete, start = false, clocks = [input_ev])]
    input: bool,
    #[variable(causality = Output, variability = Discrete, start = 0.0, clocks = [ta])]
    green: f64,
    #[variable(causality = Output, variability = Discrete, start = 0.0, clocks = [ta])]
    red: f64,
    sim: ::xdevs_fmi::DevsFmu< ::xdevs_fmi::Simulator<Semaphore> >,
}

impl ::core::default::Default for SemaphoreFmu {
    fn default() -> Self {
        Self {
            ta: ::core::default::Default::default(),
            input_ev: ::core::default::Default::default(),
            input: false,
            green: 0.0,
            red: 0.0,
            sim: ::xdevs_fmi::DevsFmu::atomic(
                Semaphore::new(Duration::from_secs(30), Duration::from_secs(15))
            ),
        }
    }
}

impl ::fmi_export::fmi3::UserModel for SemaphoreFmu {
    type LoggingCategory = ::fmi_export::fmi3::DefaultLoggingCategory;

    fn calculate_values(
        &mut self,
        _context: &dyn ::fmi_export::fmi3::Context<Self>,
    ) -> ::core::result::Result<::fmi::fmi3::Fmi3Res, ::fmi::fmi3::Fmi3Error> {
        ::core::result::Result::Ok(::fmi::fmi3::Fmi3Res::OK)
    }

    fn activate_partition(
        &mut self,
        _context: &mut dyn ::fmi_export::fmi3::Context<Self>,
        clock_reference: ::fmi::fmi3::binding::fmi3ValueReference,
        time: f64,
    ) -> ::core::result::Result<::fmi::fmi3::Fmi3Res, ::fmi::fmi3::Fmi3Error> {
        match SemaphoreFmuValueRef::try_from(clock_reference) {
            ::core::result::Result::Ok(SemaphoreFmuValueRef::Ta) => {
                let mut __ev_0 = ::core::option::Option::None;
                self.sim.step(time, |_inp| {}, |__out| {
                    __ev_0 = __out.get_values().last().copied();
                });
                if let ::core::option::Option::Some(__ev) = __ev_0 {
                    self.green = (|__s: SemaphoreState| if __s == SemaphoreState::Green { 1.0 } else { 0.0 })(__ev);
                    self.red = (|__s: SemaphoreState| if __s == SemaphoreState::Red { 1.0 } else { 0.0 })(__ev);
                }
            }
            ::core::result::Result::Ok(SemaphoreFmuValueRef::InputEv) => {
                let __v = self.input;
                let mut __ev_0 = ::core::option::Option::None;
                self.sim.step(time, |__inp| { let _ = __inp.add_value(__v); }, |__out| {
                    __ev_0 = __out.get_values().last().copied();
                });
                if let ::core::option::Option::Some(__ev) = __ev_0 {
                    self.green = (|__s: SemaphoreState| if __s == SemaphoreState::Green { 1.0 } else { 0.0 })(__ev);
                    self.red = (|__s: SemaphoreState| if __s == SemaphoreState::Red { 1.0 } else { 0.0 })(__ev);
                }
            }
            _ => return ::core::result::Result::Err(::fmi::fmi3::Fmi3Error::Error),
        }
        ::core::result::Result::Ok(::fmi::fmi3::Fmi3Res::OK)
    }

    fn next_interval(
        &self,
        clock_reference: ::fmi::fmi3::binding::fmi3ValueReference,
    ) -> ::core::option::Option<f64> {
        match SemaphoreFmuValueRef::try_from(clock_reference) {
            ::core::result::Result::Ok(SemaphoreFmuValueRef::Ta) => {
                ::core::option::Option::Some(self.sim.ta())
            }
            _ => ::core::option::Option::None,
        }
    }
}

::fmi_export::export_fmu!(SemaphoreFmu);
"#;

fn spec_de(args: &str, item: &str, kind: SimKind) -> Spec {
    match lee_pedido(args, item, kind) {
        Ok((s, _)) => s,
        Err(e) => panic!("{}", e.mensaje()),
    }
}

fn regla(args: &str, item: &str, kind: SimKind) -> Regla {
    match lee_pedido(args, item, kind) {
        Err(Error::Regla(r)) => r,
        Err(e) => panic!("{}", e.mensaje()),
        Ok(_) => panic!("se aceptó"),
    }
}

fn mensaje(args: &str, item: &str, kind: SimKind) -> String {
    match lee_pedido(args, item, kind) {
        Err(e) => e.mensaje(),
        Ok(_) => panic!("se aceptó"),
    }
}

/// A module whose component has the given bags and which holds some more items.
fn modulo(input: &str, output: &str, mas: &str) -> String {
    format!(
        "mod m {{ {mas} struct M; impl xdevs::Component for M {{ type Input = {input}; \
         type Output = {output}; type Kind = xdevs::AtomicKind; }} impl Atomic for M {{}} }}"
    )
}

#[test]
fn el_semaforo_da_el_codigo_de_su_fmu() {
    let e = atomic2fmu(INIT, SEMAFORO);
    let v = e.volcado.unwrap();
    assert_eq!(v.name, "SemaphoreFmu");
    assert_eq!(tokens(&v.codigo), tokens(SEMAFORO_FMU));
}

#[test]
fn el_modulo_conserva_el_modelo_y_gana_la_fmu() {
    let e = atomic2fmu(INIT, SEMAFORO);
    let fin = SEMAFORO.rfind('}').unwrap();
    let esperado = format!("{}{}{}", &SEMAFORO[..fin], SEMAFORO_FMU, &SEMAFORO[fin..]);
    assert_eq!(tokens(&e.salida).replace(' ', ""), tokens(&esperado).replace(' ', ""));
}

#[test]
fn sin_init_se_usa_default() {
    let s = spec_de("", SEMAFORO, SimKind::Atomic);
    assert_eq!(
        tokens(&s.model_init),
        tokens("<Semaphore as ::core::default::Default>::default()")
    );
}

#[test]
fn varios_puertos_de_entrada_y_de_salida() {
    let item = r#"
    mod sensor_fmu {
        pub enum Nivel { Bajo, Alto }
        #[derive(xdevs::Bag)]
        pub struct Entradas { pub pulso: Port<bool, 1>, pub valor: Port<f64, 1> }
        #[derive(xdevs::Bag)]
        pub struct Salidas { pub media: Port<f64, 1>, pub nivel: Port<Nivel, 1> }
        pub struct Sensor { sigma: Duration }
        impl xdevs::Component for Sensor {
            type Input = Entradas;
            type Output = Salidas;
            type Kind = xdevs::AtomicKind;
        }
        impl xdevs::Atomic for Sensor {}
    }
    "#;
    let s = spec_de("init = Sensor::new()", item, SimKind::Atomic);
    assert_eq!(s.name, "SensorFmu");
    let entradas: Vec<&str> = s.in_ports.iter().map(|p| p.field.as_str()).collect();
    assert_eq!(entradas, ["pulso", "valor"]);
    assert_eq!(s.in_ports[0].start, "false");
    assert_eq!(s.in_ports[1].start, "0.0");
    assert_eq!(s.in_ports[1].access.of("inp"), "inp.valor");
    let salidas: Vec<&str> = s
        .out_ports
        .iter()
        .flat_map(|p| p.vars.iter().map(|v| v.field.as_str()))
        .collect();
    assert_eq!(salidas, ["media", "nivel_bajo", "nivel_alto"]);
    assert_eq!(s.out_ports[0].vars[0].from, None);
    let codigo = tokens(&gen(&s));
    assert!(codigo.contains(&tokens("SensorFmuValueRef::PulsoEv")));
    assert!(codigo.contains(&tokens("let _ = __inp.valor.add_value(__v);")));
    assert!(codigo.contains(&tokens("__ev_1 = __out.nivel.get_values().last().copied();")));
}

const CADENA: &str = r#"
mod cadena_fmu {
    pub struct Emisor { sigma: Duration }
    impl xdevs::Component for Emisor {
        type Input = ();
        type Output = Port<bool, 1>;
        type Kind = xdevs::AtomicKind;
    }
    impl xdevs::Atomic for Emisor {}
    #[xdevs::coupled]
    pub struct Cadena { emisor: Emisor }
    impl xdevs::Component for Cadena {
        type Input = ();
        type Output = Port<f64, 1>;
        type Kind = xdevs::CoupledKind;
    }
    impl Coupled for Cadena {}
}
"#;

#[test]
fn el_acoplado_elige_su_componente() {
    let e = coupled2fmu("init = Cadena::build(Emisor::new())", CADENA);
    let v = e.volcado.unwrap();
    assert_eq!(v.name, "CadenaFmu");
    let codigo = tokens(&v.codigo);
    assert!(codigo.contains(&tokens(
        "output: f64, sim: ::xdevs_fmi::DevsFmu< ::xdevs_fmi::Coordinator<Cadena> >,"
    )));
    assert!(codigo.contains(&tokens(
        "sim: ::xdevs_fmi::DevsFmu::coupled(Cadena::build(Emisor::new())),"
    )));
    let atomico = spec_de("", CADENA, SimKind::Atomic);
    assert_eq!(atomico.name, "EmisorFmu");
    assert!(atomico.in_ports.is_empty());
}

#[test]
fn tuplas_y_arrays_de_puertos() {
    let item = modulo("(xdevs::Port<bool, 1>, Port<u8, 2>)", "[Port<i64, 1>; 3]", "");
    let s = spec_de("", &item, SimKind::Atomic);
    let entradas: Vec<String> = s
        .in_ports
        .iter()
        .map(|p| format!("{} {} {} {}", p.field, p.access.of("b"), p.ty, p.start))
        .collect();
    assert_eq!(entradas, ["input_0 b.0 bool false", "input_1 b.1 u8 0"]);
    let salidas: Vec<String> = s
        .out_ports
        .iter()
        .map(|p| format!("{} {} {}", p.vars[0].field, p.access.of("b"), p.vars[0].start))
        .collect();
    assert_eq!(salidas, ["output_0 b[0usize] 0", "output_1 b[1usize] 0", "output_2 b[2usize] 0"]);
}

#[test]
fn sin_puertos_no_hay_variables() {
    let s = spec_de("", &modulo("()", "()", ""), SimKind::Atomic);
    assert!(s.in_ports.is_empty());
    assert!(s.out_ports.is_empty());
    assert!(tokens(&gen(&s)).contains(&tokens("self.sim.step(time, |_inp| {}, |_out| {});")));
}

#[test]
fn los_identificadores_crudos_pierden_el_prefijo_en_los_derivados() {
    let item = modulo("E", "()", "struct E { r#type: Port<bool, 1> }");
    let s = spec_de("", &item, SimKind::Atomic);
    assert_eq!(s.in_ports[0].field, "r#type");
    let codigo = tokens(&gen(&s));
    assert!(codigo.contains(&tokens("type_ev: ::fmi_export::fmi3::Clock,")));
    assert!(codigo.contains(&tokens(
        "#[variable(causality = Input, variability = Discrete, start = false, clocks = [type_ev])] r#type: bool,"
    )));
    assert!(codigo.contains(&tokens("MFmuValueRef::TypeEv")));
    assert!(codigo.contains(&tokens("let __v = self.r#type;")));
}

const DUTY: &str = r#"
struct DutyCycleCalculatorFmu {
    #[input] entrada: bool,
    /// documentada
    #[output] duty_medido: f64,
    #[output(from = |ev| ev as i32, start = 7)] duty_entero: i32,
    #[output(ta)] sigma: f64,
}
"#;

const DUTY_ARGS: &str =
    "model = DutyCycleCalculator, init = DutyCycleCalculator::new(Duration::from_secs(20), false),";

#[test]
fn la_forma_struct_declara_su_interfaz() {
    let s = spec_de(DUTY_ARGS, DUTY, SimKind::Atomic);
    assert_eq!(s.name, "DutyCycleCalculatorFmu");
    assert_eq!(s.vis, "");
    assert_eq!(s.model_ty, "DutyCycleCalculator");
    assert_eq!(s.in_ports.len(), 1);
    assert_eq!(s.out_ports.len(), 1);
    assert_eq!(s.out_ports[0].vars.len(), 2);
    assert_eq!(s.out_ports[0].vars[1].start, "7");
    assert_eq!(tokens(s.out_ports[0].vars[1].from.as_ref().unwrap()), tokens("|ev| ev as i32"));
    assert_eq!(s.ta_outputs.len(), 1);
    let e = atomic2fmu(DUTY_ARGS, DUTY);
    assert_eq!(e.salida, e.volcado.unwrap().codigo);
    let codigo = tokens(&e.salida);
    assert!(codigo.contains(&tokens("struct DutyCycleCalculatorFmu")));
    assert!(codigo.contains(&tokens(
        "#[variable(causality = Output, variability = Discrete, start = 0.0, clocks = [ta, entrada_ev])] sigma: f64,"
    )));
    assert!(codigo.contains(&tokens("self.sigma = self.sim.ta();")));
    assert!(codigo.contains(&tokens("self.duty_medido = __ev; self.duty_entero = (|ev| ev as i32)(__ev);")));
}

#[test]
fn la_visibilidad_y_el_start_de_entrada_se_respetan() {
    let item = "pub(crate) struct F { #[input(start = true, otra)] b: bool }";
    let s = spec_de("model = m::M, init = M", item, SimKind::Coupled);
    assert_eq!(tokens(&s.vis), tokens("pub(crate)"));
    assert_eq!(s.in_ports[0].start, "true");
    assert_eq!(tokens(&s.model_ty), tokens("m::M"));
    assert!(s.out_ports.is_empty());
}

#[test]
fn gen_de_una_interfaz_escrita_a_mano() {
    let s = Spec {
        name: "AFmu".to_string(),
        vis: "pub".to_string(),
        kind: SimKind::Coupled,
        model_init: "A::new()".to_string(),
        model_ty: "A".to_string(),
        in_ports: vec![InPort {
            field: "x".to_string(),
            access: Access::Array(1),
            ty: "i32".to_string(),
            start: "0".to_string(),
        }],
        out_ports: vec![OutPort {
            access: Access::Tuple(10),
            vars: vec![OutVar {
                field: "y".to_string(),
                from: None,
                ty: "f64".to_string(),
                start: "0.0".to_string(),
            }],
        }],
        ta_outputs: vec![SpecTaOut {
            field: "z".to_string(),
            ty: "f64".to_string(),
            start: "0.0".to_string(),
        }],
    };
    let codigo = tokens(&gen(&s));
    assert!(codigo.contains(&tokens(
        "#[variable(causality = Output, variability = Discrete, start = 0.0, clocks = [ta, x_ev])] z: f64,"
    )));
    assert!(codigo.contains(&tokens("__ev_0 = __out.10.get_values().last().copied();")));
    assert!(codigo.contains(&tokens("let _ = __inp[1usize].add_value(__v);")));
    assert!(codigo.contains(&tokens("AFmuValueRef::XEv")));
}

#[test]
fn las_claves_de_los_argumentos() {
    assert_eq!(
        mensaje("otra = 1", SEMAFORO, SimKind::Atomic),
        "clave desconocida `otra` (se esperan `model`, `init`)"
    );
    assert_eq!(
        mensaje("a::b = 1", SEMAFORO, SimKind::Atomic),
        "clave desconocida `` (se esperan `model`, `init`)"
    );
    assert_eq!(regla("model = 3", SEMAFORO, SimKind::Atomic), Regla::ModelNoEsTipo);
    assert_eq!(Regla::ModelNoEsTipo.mensaje(), "`model` debe ser un tipo");
    assert!(matches!(lee_pedido("model", SEMAFORO, SimKind::Atomic), Err(Error::Sintaxis(_))));
    let s = spec_de("init = a(), init = b()", SEMAFORO, SimKind::Atomic);
    assert_eq!(tokens(&s.model_init), tokens("b()"));
}

#[test]
fn lo_que_un_modulo_tiene_que_cumplir() {
    assert_eq!(regla("", "mod m;", SimKind::Atomic), Regla::ModuloSinCuerpo);
    assert_eq!(regla("", SEMAFORO, SimKind::Coupled), Regla::SinComponente(SimKind::Coupled));
    assert_eq!(
        mensaje("", "mod m {}", SimKind::Atomic),
        "no se encontró `impl xdevs::Component for <Modelo>` con `type Kind = xdevs::AtomicKind` dentro del módulo (el modelo DEVS entero debe estar DENTRO del `mod`)."
    );
    let sin_trait = "mod m { impl Component for M { type Input = (); type Output = (); type Kind = AtomicKind; } }";
    assert_eq!(regla("", sin_trait, SimKind::Atomic), Regla::SinTrait(SimKind::Atomic));
    assert_eq!(
        mensaje("", sin_trait, SimKind::Atomic),
        "#[atomic2fmu]: el modelo debe implementar `xdevs::Atomic` — un acoplado (`impl Coupled`) pediría `coupled2fmu`."
    );
    assert_eq!(
        Regla::SinTrait(SimKind::Coupled).mensaje(),
        "#[coupled2fmu]: el modelo debe implementar `xdevs::Coupled` — un átomo (`impl Atomic`) usa `atomic2fmu`."
    );
    let sin_output = "mod m { impl Component for M { type Input = (); type Kind = AtomicKind; } impl Atomic for M {} }";
    assert_eq!(regla("", sin_output, SimKind::Atomic), Regla::SinComponente(SimKind::Atomic));
    let tupla = "mod m { impl Component for (M,) { type Input = (); type Output = (); type Kind = AtomicKind; } impl Atomic for M {} }";
    assert_eq!(regla("", tupla, SimKind::Atomic), Regla::ModeloNoNombrado);
    assert_eq!(Regla::ModeloNoNombrado.mensaje(), "el modelo debe ser un tipo con nombre");
    assert_eq!(Regla::ModeloSinNombre.mensaje(), "modelo sin nombre");
}

#[test]
fn lo_que_una_bolsa_tiene_que_cumplir() {
    let a = SimKind::Atomic;
    assert_eq!(regla("", &modulo("(Port<u8, 1>, u8)", "()", ""), a), Regla::ElementoDeTupla);
    assert_eq!(regla("", &modulo("[u8; 2]", "()", ""), a), Regla::ElementoDeArray);
    assert_eq!(regla("", &modulo("[Port<u8, 1>; N]", "()", ""), a), Regla::LongitudDeArray);
    assert_eq!(regla("", &modulo("&'static u8", "()", ""), a), Regla::BolsaNoSoportada);
    assert_eq!(regla("", &modulo("E", "()", "struct E(Port<u8, 1>);"), a), Regla::PuertoSinNombre);
    assert_eq!(regla("", &modulo("E", "()", "struct E { a: u8 }"), a), Regla::CampoNoEsPuerto);
    assert_eq!(
        mensaje("", &modulo("()", "otro::Lugar", ""), a),
        "no se pudo interpretar la bolsa `Lugar`: no es `Port<...>`, ni tupla, ni array, ni un struct de puertos definido dentro del módulo"
    );
    assert!(matches!(
        lee_pedido("", &modulo("[Port<u8, 1>; 99999999999999999999999]", "()", ""), a),
        Err(Error::Sintaxis(_))
    ));
    assert_eq!(
        Regla::BolsaNoSoportada.mensaje(),
        "tipo de bolsa no soportado (usa `Port<T,N>`, `()`, una tupla, un array o un struct de puertos)"
    );
    assert_eq!(Regla::BolsaSinNombre.mensaje(), "tipo de bolsa sin nombre");
    assert_eq!(Regla::ElementoDeTupla.mensaje(), "cada elemento de la tupla debe ser un `Port<...>`");
    assert_eq!(Regla::ElementoDeArray.mensaje(), "el elemento del array debe ser un `Port<...>`");
    assert_eq!(Regla::LongitudDeArray.mensaje(), "la longitud del array debe ser un literal entero");
    assert_eq!(Regla::PuertoSinNombre.mensaje(), "el struct de puertos debe tener campos con nombre");
    assert_eq!(
        Regla::CampoNoEsPuerto.mensaje(),
        "cada campo del struct de puertos debe ser un `Port<...>`"
    );
}

#[test]
fn lo_que_una_declaracion_tiene_que_cumplir() {
    let a = SimKind::Atomic;
    assert_eq!(regla("init = M", "struct F;", a), Regla::FaltaModel);
    assert_eq!(regla("model = M", "struct F;", a), Regla::FaltaInit);
    let args = "model = M, init = M";
    assert_eq!(regla(args, "struct F(#[input] u8);", a), Regla::CampoSinNombre);
    assert_eq!(regla(args, "struct F { #[otra] x: u8 }", a), Regla::CampoSinEtiqueta);
    assert_eq!(regla(args, "struct F { #[output(otra)] x: u8 }", a), Regla::ArgumentoDeOutput);
    assert_eq!(regla(args, "struct F { #[output(a(b))] x: u8 }", a), Regla::ArgumentoDeOutput);
    assert_eq!(regla(args, "struct F { x: u8, #[output(1)] y: u8 }", a), Regla::CampoSinEtiqueta);
    assert!(matches!(
        lee_pedido(args, "struct F { #[output(1)] y: u8, x: u8 }", a),
        Err(Error::Sintaxis(_))
    ));
    assert!(matches!(lee_pedido(args, "fn f() {}", a), Err(Error::Sintaxis(_))));
    assert_eq!(Regla::FaltaModel.mensaje(), "falta `model = <Tipo>` (forma struct)");
    assert_eq!(Regla::FaltaInit.mensaje(), "falta `init = <expr>` (forma struct)");
    assert_eq!(Regla::CampoSinNombre.mensaje(), "se esperan campos con nombre");
    assert_eq!(
        Regla::CampoSinEtiqueta.mensaje(),
        "cada campo debe llevar `#[input]` o `#[output(...)]`"
    );
    assert_eq!(
        Regla::ArgumentoDeOutput.mensaje(),
        "en `#[output(...)]` se esperan `from = |ev| ...`, `ta` o `start = ...`"
    );
    assert_eq!(Regla::ModuloSinCuerpo.mensaje(), "el módulo debe tener cuerpo `{ ... }` con el modelo DEVS dentro");
}

#[test]
fn un_rechazo_se_vuelve_error_de_compilacion() {
    let e = atomic2fmu("", "mod m;");
    assert!(e.volcado.is_none());
    assert_eq!(
        tokens(&e.salida),
        tokens("::core::compile_error! { \"el módulo debe tener cuerpo `{ ... }` con el modelo DEVS dentro\" }")
    );
}

#[test]
fn un_nombre_que_no_es_identificador_se_rechaza() {
    let item = modulo("E", "()", "struct E { _1: Port<bool, 1> }");
    let e = atomic2fmu("", &item);
    assert!(e.volcado.is_none());
    assert_eq!(
        tokens(&e.salida),
        tokens("::core::compile_error! { \"`1Ev` no es un identificador\" }")
    );
}

#[test]
fn un_codigo_que_no_es_sintaxis_se_rechaza_tras_generarlo() {
    let item = modulo("()", "Port<S, 1>", "enum S { Type, Otro }");
    let e = atomic2fmu("", &item);
    assert!(e.volcado.is_some());
    assert!(tokens(&e.salida).starts_with(&tokens("::core::compile_error!")));
}

#[test]
fn se_muestra_el_codigo_con_formato_si_lo_hay() {
    assert_eq!(codigo_mostrado("a;b;", Some("a;\nb;\n".to_string())), "a;\nb;\n");
    assert_eq!(codigo_mostrado("a;b;", None), "a;b;");
}

#[test]
fn el_archivo_generado_lleva_cabecera() {
    let (nombre, contenido) = archivo_generado("SemaphoreFmu", "struct S;\n");
    assert_eq!(nombre, "SemaphoreFmu.rs");
    assert_eq!(
        contenido,
        "// GENERADO por #[atomic2fmu] para `SemaphoreFmu` — NO editar (se regenera al compilar).\n// Este es el \"código FMI\" que la macro produce a partir del modelo DEVS,\n// el paso intermedio antes de `cargo fmi bundle`.\n\nstruct S;\n"
    );
}
