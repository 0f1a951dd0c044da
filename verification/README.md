# xdevs_fmi

DEVS models of [xdevs](https://github.com/iscar-ucm/xdevs_no_std.rs) as FMUs for FMI 3.0
Scheduled Execution, with the logic verified by Verus.

| Where | What |
| --- | --- |
| `src/devs.rs` | the protocol of a step: when the output function goes, when the transition, how long until the next internal event |
| `src/carga.rs` | the data of a port as FMI variables: a code, or one variable for each variant |
| `src/sintaxis.rs`, `src/lectura.rs` | the plain syntax that the attributes work on, and how it is read with `syn` |
| `src/puertos.rs`, `src/expansion.rs` | from a model, or from a declared struct, to the interface of its FMU |
| `src/interfaz.rs`, `src/genera.rs` | the interface, and the code generated for it |
| `src/macros.rs` | `#[atomic2fmu]` and `#[coupled2fmu]`, from text to text |
| `src/leyes.rs` | what holds of the library as a whole |
| `app/` | what runs a model, floating point, the compiler's tokens, files |

Times in the library are whole microseconds; `app/` converts to and from seconds.
