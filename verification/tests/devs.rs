use xdevs_fmi::devs::{Accion, DevsFmu, Evento, INTERVALO_PASIVO};

/// An atomic model under its simulator: it emits a counter every `periodo`, and an external event
/// `true` brings the next internal event forward to half the time.
struct Contador {
    sigma: u64,
    periodo: u64,
    n: u32,
    t_last: u64,
    t_next: u64,
    entrada: Vec<bool>,
    salida: Vec<u32>,
    traza: Vec<&'static str>,
}

impl Contador {
    fn delta_int(&mut self) {
        self.n += 1;
        self.sigma = self.periodo;
        self.traza.push("int");
    }

    fn delta_ext(&mut self, e: u64) {
        self.sigma -= e;
        if self.entrada.last() == Some(&true) {
            self.sigma /= 2;
        }
        self.traza.push("ext");
    }

    fn start(&mut self, t: u64) -> u64 {
        self.t_last = t;
        self.t_next = t + self.sigma;
        self.t_next
    }

    fn lambda(&mut self, t: u64) {
        if t >= self.t_next {
            self.salida.push(self.n + 1);
            self.traza.push("lambda");
        }
    }

    fn delta(&mut self, t: u64) -> u64 {
        if t >= self.t_next {
            self.delta_int();
            if !self.entrada.is_empty() {
                self.delta_ext(0);
            }
        } else {
            let e = t - self.t_last;
            self.delta_ext(e);
        }
        self.entrada.clear();
        self.salida.clear();
        self.t_last = t;
        self.t_next = t.saturating_add(self.sigma);
        self.t_next
    }
}

/// The model and the protocol that drives it.
struct Fmu {
    devs: DevsFmu,
    sim: Contador,
}

impl Fmu {
    fn step(&mut self, t: f64, llenar: impl FnOnce(&mut Vec<bool>), leer: impl FnOnce(&Vec<u32>)) {
        let mut llenar = Some(llenar);
        let mut leer = Some(leer);
        let mut accion = self.devs.step((t * 1e6).round() as u64);
        loop {
            let evento = match accion {
                Accion::Vaciar => {
                    self.sim.salida.clear();
                    Evento::Vaciada
                }
                Accion::Llenar => {
                    llenar.take().unwrap()(&mut self.sim.entrada);
                    Evento::Llenada(self.sim.entrada.is_empty())
                }
                Accion::Lambda(ti) => {
                    self.sim.lambda(ti);
                    Evento::Emitida
                }
                Accion::Leer => {
                    leer.take().unwrap()(&self.sim.salida);
                    Evento::Leida
                }
                Accion::Delta(ti) => Evento::Transitada(self.sim.delta(ti)),
                Accion::Fin => return,
            };
            accion = self.devs.sigue(evento);
        }
    }

    fn ta(&self) -> f64 {
        self.devs.ta() as f64 / 1e6
    }

    fn t_proximo(&self) -> f64 {
        self.devs.t_proximo() as f64 / 1e6
    }
}

fn contador() -> Fmu {
    let mut sim = Contador {
        sigma: 10_000_000,
        periodo: 10_000_000,
        n: 0,
        t_last: 0,
        t_next: 0,
        entrada: Vec::new(),
        salida: Vec::new(),
        traza: Vec::new(),
    };
    let t_next = sim.start(0);
    Fmu { devs: DevsFmu::new(t_next), sim }
}

#[test]
fn el_primer_ta_sale_de_start() {
    let c = contador();
    assert_eq!(c.ta(), 10.0);
    assert_eq!(c.t_proximo(), 10.0);
}

#[test]
fn evento_interno_emite_lambda_y_reprograma() {
    let mut c = contador();
    let mut visto = None;
    c.step(10.0, |_| {}, |out| visto = out.last().copied());
    assert_eq!(visto, Some(1), "λ se ejecuta con el estado PREVIO");
    assert_eq!(c.ta(), 10.0, "reprogramado a t=20");
    assert_eq!(c.t_proximo(), 20.0);
    assert_eq!(c.sim.traza, ["lambda", "int"]);
}

#[test]
fn sin_entrada_y_antes_de_tiempo_no_hace_nada() {
    let mut c = contador();
    let mut lambda_llamada = false;
    c.step(3.0, |_| {}, |_| lambda_llamada = true);
    assert!(!lambda_llamada);
    assert_eq!(c.t_proximo(), 10.0, "el próximo evento no se movió");
    assert!(c.sim.traza.is_empty());
    assert_eq!(c.ta(), 7.0);
}

#[test]
fn evento_externo_reprograma_el_interno() {
    let mut c = contador();
    c.step(4.0, |inp| inp.push(true), |_| {});
    assert_eq!(c.ta(), 3.0, "ta() se mide desde el instante actual");
    assert_eq!(c.t_proximo(), 7.0);
    assert_eq!(c.sim.traza, ["ext"]);
}

#[test]
fn un_externo_neutro_no_mueve_el_proximo_evento() {
    let mut c = contador();
    c.step(4.0, |inp| inp.push(false), |_| {});
    assert_eq!(c.t_proximo(), 10.0, "sigue en t=10");
    assert_eq!(c.ta(), 6.0, "pero quedan 6 s desde t=4");
}

#[test]
fn coincidencia_exacta_dispara_confluente_con_lambda() {
    let mut c = contador();
    let mut visto = None;
    c.step(10.0, |inp| inp.push(true), |out| visto = out.last().copied());
    assert_eq!(visto, Some(1), "λ debe ejecutarse también en el confluente");
    assert_eq!(c.ta(), 5.0);
    assert_eq!(c.sim.traza, ["lambda", "int", "ext"]);
}

#[test]
fn un_paso_tardio_emite_igual() {
    let mut c = contador();
    let mut visto = None;
    c.step(12.5, |_| {}, |out| visto = out.last().copied());
    assert_eq!(visto, Some(1));
    assert_eq!(c.t_proximo(), 22.5);
}

#[test]
fn el_intervalo_pasivo_es_finito() {
    assert_eq!(INTERVALO_PASIVO as f64 / 1e6, 1e12);
    assert_eq!(DevsFmu::new(u64::MAX).ta(), INTERVALO_PASIVO);
    assert_eq!(DevsFmu::new(INTERVALO_PASIVO).ta(), INTERVALO_PASIVO);
    assert_eq!(DevsFmu::new(INTERVALO_PASIVO - 1).ta(), INTERVALO_PASIVO - 1);
    assert_eq!(DevsFmu::new(0).ta(), 0);
}

#[test]
fn el_intervalo_lleva_al_evento_interno() {
    let mut d = DevsFmu::new(7);
    assert_eq!(d.step(6), Accion::Vaciar);
    assert_eq!(d.sigue(Evento::Vaciada), Accion::Llenar);
    assert_eq!(d.sigue(Evento::Llenada(true)), Accion::Fin);
    assert_eq!(d.ta(), 1);
    assert_eq!(d.step(6 + d.ta()), Accion::Vaciar);
    assert_eq!(d.sigue(Evento::Vaciada), Accion::Llenar);
    assert_eq!(d.sigue(Evento::Llenada(true)), Accion::Lambda(7));
    assert_eq!(d.sigue(Evento::Emitida), Accion::Leer);
    assert_eq!(d.sigue(Evento::Leida), Accion::Delta(7));
    assert_eq!(d.sigue(Evento::Transitada(7)), Accion::Fin);
    assert_eq!(d.ta(), 0);
    assert_eq!(d.t_proximo(), 7);
}
