//! The DEVS protocol of an FMU under scheduled execution: when the output function goes, when
//! the transition, and how long it is until the next internal event. Times are in microseconds.

use vstd::prelude::*;

verus! {

/// The interval that is reported when the model is passive: it has no next internal event, and
/// FMI has no way to say that. Large but finite, so that a scheduler can go on computing with it.
pub const INTERVALO_PASIVO: u64 = 1_000_000_000_000_000_000;

/// What the simulation has to do next.
#[derive(Clone, Copy, PartialEq, Eq, Structural, Debug)]
pub enum Accion {
    /// Empty the output bag.
    Vaciar,
    /// Put the external events, if there are any, in the input bag.
    Llenar,
    /// Run the output function at that time, with the state as it is.
    Lambda(u64),
    /// Hand the output bag out: the transition empties it.
    Leer,
    /// Run the transition at that time: internal, external or confluent.
    Delta(u64),
    /// Nothing: the step is over.
    Fin,
}

/// What the simulation has done.
#[derive(Clone, Copy, PartialEq, Eq, Structural, Debug)]
pub enum Evento {
    /// The output bag is empty.
    Vaciada,
    /// The input bag holds what it is to hold; whether that is nothing.
    Llenada(bool),
    /// The output function has run.
    Emitida,
    /// The output bag has been handed out.
    Leida,
    /// The transition has run; the time of the next internal event.
    Transitada(u64),
}

/// How far a step has come.
#[derive(Clone, Copy, PartialEq, Eq, Structural, Debug)]
pub enum Fase {
    /// No step is on its way.
    Reposo,
    /// The output bag is being emptied.
    Vaciando,
    /// The input bag is being filled.
    Llenando,
    /// The output function is running.
    Emitiendo,
    /// The output bag is being handed out.
    Leyendo,
    /// The transition is running.
    Transitando,
}

/// Drives the simulation of a DEVS model from absolute times. Keeps the time of the next
/// internal event, which is what feeds the countdown clock of the FMU, and the time of the last
/// step, which the interval is measured from.
#[derive(Clone, Copy, PartialEq, Eq, Structural, Debug)]
pub struct DevsFmu {
    t_next: u64,
    t_actual: u64,
    fase: Fase,
}

/// The mathematical state of a [`DevsFmu`].
pub struct DevsView {
    pub t_next: int,
    pub t_actual: int,
    pub fase: Fase,
}

impl View for DevsFmu {
    type V = DevsView;

    closed spec fn view(&self) -> DevsView {
        DevsView { t_next: self.t_next as int, t_actual: self.t_actual as int, fase: self.fase }
    }
}

impl DevsView {
    /// The state between two steps.
    pub open spec fn reposo(t_next: int, t_actual: int) -> DevsView {
        DevsView { t_next, t_actual, fase: Fase::Reposo }
    }

    /// Whether an internal event is due.
    pub open spec fn inminente(self) -> bool {
        self.t_actual >= self.t_next
    }

    /// Whether what the simulation has done is what it was asked to do.
    pub open spec fn espera(self, e: Evento) -> bool {
        match self.fase {
            Fase::Reposo => false,
            Fase::Vaciando => e is Vaciada,
            Fase::Llenando => e is Llenada,
            Fase::Emitiendo => e is Emitida,
            Fase::Leyendo => e is Leida,
            Fase::Transitando => e is Transitada,
        }
    }

    /// The time until the next internal event, measured from the last step.
    pub open spec fn ta(self) -> int {
        if self.t_next <= self.t_actual {
            0
        } else if self.t_next - self.t_actual > INTERVALO_PASIVO {
            INTERVALO_PASIVO as int
        } else {
            self.t_next - self.t_actual
        }
    }

    /// The state and the action after an event.
    pub open spec fn tras(self, e: Evento) -> (DevsView, Accion) {
        let t = self.t_actual as u64;
        match e {
            Evento::Vaciada => (DevsView { fase: Fase::Llenando, ..self }, Accion::Llenar),
            Evento::Llenada(vacia) => if self.inminente() {
                (DevsView { fase: Fase::Emitiendo, ..self }, Accion::Lambda(t))
            } else if vacia {
                (DevsView { fase: Fase::Reposo, ..self }, Accion::Fin)
            } else {
                (DevsView { fase: Fase::Transitando, ..self }, Accion::Delta(t))
            },
            Evento::Emitida => (DevsView { fase: Fase::Leyendo, ..self }, Accion::Leer),
            Evento::Leida => (DevsView { fase: Fase::Transitando, ..self }, Accion::Delta(t)),
            Evento::Transitada(t_next) => (
                DevsView { t_next: t_next as int, fase: Fase::Reposo, ..self },
                Accion::Fin,
            ),
        }
    }
}

impl DevsFmu {
    /// A simulation that has been started at time zero, given the time of its first internal
    /// event.
    pub fn new(t_next: u64) -> (r: DevsFmu)
        ensures
            r@ == DevsView::reposo(t_next as int, 0),
            r@.t_next == t_next,
            r@.t_actual == 0,
            r@.fase == Fase::Reposo,
    {
        DevsFmu { t_next, t_actual: 0, fase: Fase::Reposo }
    }

    /// Begins a step of the protocol at the absolute time `t`.
    ///
    /// The step asks for one thing after another, and goes on with [`sigue`](DevsFmu::sigue):
    ///
    /// - the output bag is emptied and the input bag filled, maybe with nothing;
    /// - if `t` has reached the next internal event, the output function runs, with the state
    ///   before the transition, and the output bag is handed out;
    /// - if it has not, and the input bag is empty, the step is over: there is no spurious
    ///   external transition;
    /// - else the transition runs and gives the time of the next internal event.
    pub fn step(&mut self, t: u64) -> (a: Accion)
        requires
            old(self)@.fase == Fase::Reposo,
        ensures
            a == Accion::Vaciar,
            final(self)@ == (DevsView { t_actual: t as int, fase: Fase::Vaciando, ..old(self)@ }),
    {
        self.t_actual = t;
        self.fase = Fase::Vaciando;
        Accion::Vaciar
    }

    /// Goes on with a step after the simulation has done what it was asked to do.
    pub fn sigue(&mut self, e: Evento) -> (a: Accion)
        requires
            old(self)@.espera(e),
        ensures
            (final(self)@, a) == old(self)@.tras(e),
    {
        let t: u64 = self.t_actual;
        match e {
            Evento::Vaciada => {
                self.fase = Fase::Llenando;
                Accion::Llenar
            },
            Evento::Llenada(vacia) => {
                if t >= self.t_next {
                    self.fase = Fase::Emitiendo;
                    Accion::Lambda(t)
                } else if vacia {
                    self.fase = Fase::Reposo;
                    Accion::Fin
                } else {
                    self.fase = Fase::Transitando;
                    Accion::Delta(t)
                }
            },
            Evento::Emitida => {
                self.fase = Fase::Leyendo;
                Accion::Leer
            },
            Evento::Leida => {
                self.fase = Fase::Transitando;
                Accion::Delta(t)
            },
            Evento::Transitada(t_next) => {
                self.t_next = t_next;
                self.fase = Fase::Reposo;
                Accion::Fin
            },
        }
    }

    /// The time until the next internal event, measured from the last step: what the countdown
    /// clock reports. If the model is passive, [`INTERVALO_PASIVO`].
    pub fn ta(&self) -> (r: u64)
        ensures
            r == self@.ta(),
    {
        if self.t_next <= self.t_actual {
            0
        } else if self.t_next - self.t_actual > INTERVALO_PASIVO {
            INTERVALO_PASIVO
        } else {
            self.t_next - self.t_actual
        }
    }

    /// The absolute time of the next internal event.
    pub fn t_proximo(&self) -> (r: u64)
        ensures
            r == self@.t_next,
    {
        self.t_next
    }
}

/// The actions of a whole step at `t`, given whether the input bag ends up empty.
pub open spec fn acciones(d: DevsView, t: u64, vacia: bool) -> Seq<Accion> {
    if t >= d.t_next {
        seq![
            Accion::Vaciar,
            Accion::Llenar,
            Accion::Lambda(t),
            Accion::Leer,
            Accion::Delta(t),
            Accion::Fin,
        ]
    } else if vacia {
        seq![Accion::Vaciar, Accion::Llenar, Accion::Fin]
    } else {
        seq![Accion::Vaciar, Accion::Llenar, Accion::Delta(t), Accion::Fin]
    }
}

/// The state after a whole step at `t`, given whether the input bag ends up empty and the time
/// that the transition gives, should it run.
pub open spec fn tras_paso(d: DevsView, t: u64, vacia: bool, t_next: u64) -> DevsView {
    DevsView::reposo(
        if t >= d.t_next || !vacia {
            t_next as int
        } else {
            d.t_next
        },
        t as int,
    )
}

/// What a simulation answers to an action.
pub open spec fn respuesta(a: Accion, vacia: bool, t_next: u64) -> Evento {
    match a {
        Accion::Vaciar => Evento::Vaciada,
        Accion::Llenar => Evento::Llenada(vacia),
        Accion::Lambda(_) => Evento::Emitida,
        Accion::Leer => Evento::Leida,
        _ => Evento::Transitada(t_next),
    }
}

/// A step begun at `t` and carried on through `n` answers: the state, and the action asked for.
pub open spec fn tras_respuestas(
    d: DevsView,
    t: u64,
    vacia: bool,
    t_next: u64,
    n: nat,
) -> (DevsView, Accion)
    decreases n,
{
    if n == 0 {
        (DevsView { t_actual: t as int, fase: Fase::Vaciando, ..d }, Accion::Vaciar)
    } else {
        let (e, a) = tras_respuestas(d, t, vacia, t_next, (n - 1) as nat);
        e.tras(respuesta(a, vacia, t_next))
    }
}

/// A step asks for the actions of the DEVS protocol and for no others, in their order: the output
/// function when an internal event is due, with the state before the transition; the output bag
/// handed out just when the output function has run; the transition when an internal event is due
/// or an external one came, and else nothing. Each answer is one that the step waits for, and it
/// ends at rest, with the next internal event moved only by the transition.
pub proof fn ley_protocolo(d: DevsView, t: u64, vacia: bool, t_next: u64)
    requires
        d.fase == Fase::Reposo,
    ensures
        forall|n: nat|
            n < acciones(d, t, vacia).len() ==> (#[trigger] tras_respuestas(
                d,
                t,
                vacia,
                t_next,
                n,
            )).1 == acciones(d, t, vacia)[n as int],
        forall|n: nat|
            n + 1 < acciones(d, t, vacia).len() ==> ({
                let (e, a) = #[trigger] tras_respuestas(d, t, vacia, t_next, n);
                e.espera(respuesta(a, vacia, t_next))
            }),
        tras_respuestas(d, t, vacia, t_next, (acciones(d, t, vacia).len() - 1) as nat).0
            == tras_paso(d, t, vacia, t_next),
{
    reveal_with_fuel(tras_respuestas, 7);
}

/// The countdown interval leads to the next internal event: while the model is not passive, a
/// step once the interval has passed runs the output function, and no step before that does.
pub proof fn ley_intervalo(d: DevsView, t: u64, vacia: bool)
    requires
        d.t_next - d.t_actual <= INTERVALO_PASIVO,
        d.t_actual <= t,
    ensures
        t >= d.t_actual + d.ta() <==> acciones(d, t, vacia).contains(Accion::Lambda(t)),
{
    let todas = acciones(d, t, vacia);
    if t >= d.t_next {
        assert(todas[2] == Accion::Lambda(t));
    }
}

/// A passive model reports the passive interval, and no other does but one whose next internal
/// event is just as far away; the interval is never negative.
pub proof fn ley_pasivo(d: DevsView)
    ensures
        0 <= d.ta() <= INTERVALO_PASIVO,
        d.ta() == INTERVALO_PASIVO <==> d.t_next - d.t_actual >= INTERVALO_PASIVO,
        d.ta() == 0 <==> d.inminente(),
{
}

/// Time that passes without an event, or with one that leaves the next internal event where it
/// was, moves only the interval: it falls by the time that has passed.
pub proof fn ley_sin_cambio(d: DevsView, t: u64, vacia: bool, t_next: u64)
    requires
        d.fase == Fase::Reposo,
        d.t_actual <= t < d.t_next,
        vacia || t_next == d.t_next,
    ensures
        tras_paso(d, t, vacia, t_next).t_next == d.t_next,
        d.t_next - d.t_actual <= INTERVALO_PASIVO ==> tras_paso(d, t, vacia, t_next).ta() == d.ta()
            - (t - d.t_actual),
{
}

}
