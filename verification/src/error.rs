//! Why an interface is refused, and the message for it.

use crate::interfaz::SimKind;
use crate::texto::une;
use vstd::prelude::*;
use vstd::string::*;

verus! {

/// A rule that the attribute's arguments or its item break.
#[derive(Clone, Copy, PartialEq, Eq, Structural, Debug)]
pub enum Regla {
    /// The value of `model` is not a path.
    ModelNoEsTipo,
    /// The module has no body.
    ModuloSinCuerpo,
    /// No `impl Component` in the module declares the kind that is wanted.
    SinComponente(SimKind),
    /// No `impl` in the module is for the DEVS trait of the kind.
    SinTrait(SimKind),
    /// The model's type is not a path.
    ModeloNoNombrado,
    /// The model's path is empty.
    ModeloSinNombre,
    /// An element of a tuple of ports is not a port.
    ElementoDeTupla,
    /// The element of an array of ports is not a port.
    ElementoDeArray,
    /// The length of an array of ports is not an integer literal.
    LongitudDeArray,
    /// The path of a bag is empty.
    BolsaSinNombre,
    /// A struct of ports has a field without a name.
    PuertoSinNombre,
    /// A field of a struct of ports is not a port.
    CampoNoEsPuerto,
    /// The type of a bag has none of the shapes that ports can be read from.
    BolsaNoSoportada,
    /// The declared form needs `model`.
    FaltaModel,
    /// The declared form needs `init`.
    FaltaInit,
    /// A declared field has no name.
    CampoSinNombre,
    /// A declared field is neither an input nor an output.
    CampoSinEtiqueta,
    /// An argument of `#[output(...)]` is none of those that it takes.
    ArgumentoDeOutput,
}

impl Regla {
    /// The message for the rule.
    pub open spec fn texto(self) -> Seq<char> {
        match self {
            Regla::ModelNoEsTipo => "`model` debe ser un tipo"@,
            Regla::ModuloSinCuerpo =>
                "el módulo debe tener cuerpo `{ ... }` con el modelo DEVS dentro"@,
            Regla::SinComponente(k) =>
                "no se encontró `impl xdevs::Component for <Modelo>` con `type Kind = xdevs::"@
                    + k.kind_ty_name_spec()
                    + "` dentro del módulo (el modelo DEVS entero debe estar DENTRO del `mod`)."@,
            Regla::SinTrait(SimKind::Atomic) =>
                "#[atomic2fmu]: el modelo debe implementar `xdevs::Atomic` — un acoplado (`impl Coupled`) pediría `coupled2fmu`."@,
            Regla::SinTrait(SimKind::Coupled) =>
                "#[coupled2fmu]: el modelo debe implementar `xdevs::Coupled` — un átomo (`impl Atomic`) usa `atomic2fmu`."@,
            Regla::ModeloNoNombrado => "el modelo debe ser un tipo con nombre"@,
            Regla::ModeloSinNombre => "modelo sin nombre"@,
            Regla::ElementoDeTupla => "cada elemento de la tupla debe ser un `Port<...>`"@,
            Regla::ElementoDeArray => "el elemento del array debe ser un `Port<...>`"@,
            Regla::LongitudDeArray => "la longitud del array debe ser un literal entero"@,
            Regla::BolsaSinNombre => "tipo de bolsa sin nombre"@,
            Regla::PuertoSinNombre => "el struct de puertos debe tener campos con nombre"@,
            Regla::CampoNoEsPuerto =>
                "cada campo del struct de puertos debe ser un `Port<...>`"@,
            Regla::BolsaNoSoportada =>
                "tipo de bolsa no soportado (usa `Port<T,N>`, `()`, una tupla, un array o un struct de puertos)"@,
            Regla::FaltaModel => "falta `model = <Tipo>` (forma struct)"@,
            Regla::FaltaInit => "falta `init = <expr>` (forma struct)"@,
            Regla::CampoSinNombre => "se esperan campos con nombre"@,
            Regla::CampoSinEtiqueta => "cada campo debe llevar `#[input]` o `#[output(...)]`"@,
            Regla::ArgumentoDeOutput =>
                "en `#[output(...)]` se esperan `from = |ev| ...`, `ta` o `start = ...`"@,
        }
    }

    /// The message for the rule.
    pub fn mensaje(&self) -> (r: String)
        ensures
            r@ == self.texto(),
    {
        match self {
            Regla::ModelNoEsTipo => "`model` debe ser un tipo".to_owned(),
            Regla::ModuloSinCuerpo =>
                "el módulo debe tener cuerpo `{ ... }` con el modelo DEVS dentro".to_owned(),
            Regla::SinComponente(k) =>
                une(
                    "no se encontró `impl xdevs::Component for <Modelo>` con `type Kind = xdevs::",
                    k.kind_ty_name(),
                ).concat(
                    "` dentro del módulo (el modelo DEVS entero debe estar DENTRO del `mod`).",
                ),
            Regla::SinTrait(SimKind::Atomic) =>
                "#[atomic2fmu]: el modelo debe implementar `xdevs::Atomic` — un acoplado (`impl Coupled`) pediría `coupled2fmu`.".to_owned(),
            Regla::SinTrait(SimKind::Coupled) =>
                "#[coupled2fmu]: el modelo debe implementar `xdevs::Coupled` — un átomo (`impl Atomic`) usa `atomic2fmu`.".to_owned(),
            Regla::ModeloNoNombrado => "el modelo debe ser un tipo con nombre".to_owned(),
            Regla::ModeloSinNombre => "modelo sin nombre".to_owned(),
            Regla::ElementoDeTupla =>
                "cada elemento de la tupla debe ser un `Port<...>`".to_owned(),
            Regla::ElementoDeArray => "el elemento del array debe ser un `Port<...>`".to_owned(),
            Regla::LongitudDeArray =>
                "la longitud del array debe ser un literal entero".to_owned(),
            Regla::BolsaSinNombre => "tipo de bolsa sin nombre".to_owned(),
            Regla::PuertoSinNombre =>
                "el struct de puertos debe tener campos con nombre".to_owned(),
            Regla::CampoNoEsPuerto =>
                "cada campo del struct de puertos debe ser un `Port<...>`".to_owned(),
            Regla::BolsaNoSoportada =>
                "tipo de bolsa no soportado (usa `Port<T,N>`, `()`, una tupla, un array o un struct de puertos)".to_owned(),
            Regla::FaltaModel => "falta `model = <Tipo>` (forma struct)".to_owned(),
            Regla::FaltaInit => "falta `init = <expr>` (forma struct)".to_owned(),
            Regla::CampoSinNombre => "se esperan campos con nombre".to_owned(),
            Regla::CampoSinEtiqueta =>
                "cada campo debe llevar `#[input]` o `#[output(...)]`".to_owned(),
            Regla::ArgumentoDeOutput =>
                "en `#[output(...)]` se esperan `from = |ev| ...`, `ta` o `start = ...`".to_owned(),
        }
    }
}

/// Why an interface is refused.
pub enum Error {
    /// The source does not parse, with the parser's message.
    Sintaxis(String),
    /// An argument has a key that is neither `model` nor `init`.
    ClaveDesconocida(String),
    /// A bag's type is a path, but neither a port nor a struct of the module.
    BolsaDesconocida(String),
    /// A name that the generated code would need is not an identifier.
    NoEsIdentificador(String),
    /// A rule is broken.
    Regla(Regla),
}

pub enum ErrorView {
    Sintaxis(Seq<char>),
    ClaveDesconocida(Seq<char>),
    BolsaDesconocida(Seq<char>),
    NoEsIdentificador(Seq<char>),
    Regla(Regla),
}

impl DeepView for Error {
    type V = ErrorView;

    open spec fn deep_view(&self) -> ErrorView {
        match self {
            Error::Sintaxis(m) => ErrorView::Sintaxis(m@),
            Error::ClaveDesconocida(k) => ErrorView::ClaveDesconocida(k@),
            Error::BolsaDesconocida(n) => ErrorView::BolsaDesconocida(n@),
            Error::NoEsIdentificador(n) => ErrorView::NoEsIdentificador(n@),
            Error::Regla(r) => ErrorView::Regla(*r),
        }
    }
}

impl ErrorView {
    /// The message for the error.
    pub open spec fn texto(self) -> Seq<char> {
        match self {
            ErrorView::Sintaxis(m) => m,
            ErrorView::ClaveDesconocida(k) =>
                "clave desconocida `"@ + k + "` (se esperan `model`, `init`)"@,
            ErrorView::BolsaDesconocida(n) =>
                "no se pudo interpretar la bolsa `"@ + n
                    + "`: no es `Port<...>`, ni tupla, ni array, ni un struct de puertos definido dentro del módulo"@,
            ErrorView::NoEsIdentificador(n) => "`"@ + n + "` no es un identificador"@,
            ErrorView::Regla(r) => r.texto(),
        }
    }
}

impl Error {
    /// The message for the error.
    pub fn mensaje(&self) -> (r: String)
        ensures
            r@ == self.deep_view().texto(),
    {
        match self {
            Error::Sintaxis(m) => m.clone(),
            Error::ClaveDesconocida(k) =>
                une("clave desconocida `", k.as_str()).concat("` (se esperan `model`, `init`)"),
            Error::BolsaDesconocida(n) =>
                une("no se pudo interpretar la bolsa `", n.as_str()).concat(
                    "`: no es `Port<...>`, ni tupla, ni array, ni un struct de puertos definido dentro del módulo",
                ),
            Error::NoEsIdentificador(n) => une("`", n.as_str()).concat("` no es un identificador"),
            Error::Regla(r) => r.mensaje(),
        }
    }
}

/// The view of a result: of the value, or of the error.
pub open spec fn vista<T: DeepView>(r: Result<T, Error>) -> Result<T::V, ErrorView> {
    match r {
        Ok(v) => Ok(v.deep_view()),
        Err(e) => Err(e.deep_view()),
    }
}

}
