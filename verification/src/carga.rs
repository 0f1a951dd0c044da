//! What travels through a DEVS port, as FMI variables: a code, or one variable for each variant.

use vstd::prelude::*;
use vstd::slice::*;

verus! {

/// One variable for each of `n` variants: on for the one at the place of the code, off for the
/// others. Places beyond the variants stay as they were.
pub open spec fn una_activa(codigo: i32, n: usize, antes: Seq<bool>) -> Seq<bool> {
    Seq::new(
        antes.len(),
        |i: int|
            if i < n {
                i == codigo
            } else {
                antes[i]
            },
    )
}

/// Sets one variable for each of `n` variants: on for the one at the place of the code, off for
/// the others. If there are fewer places than variants, those that there are get set.
pub fn activa_una(codigo: i32, n: usize, salida: &mut [bool])
    ensures
        final(salida)@ == una_activa(codigo, n, old(salida)@),
{
    let mut i: usize = 0;
    while i < salida.len() && i < n
        invariant
            i <= salida@.len(),
            i <= n,
            salida@.len() == old(salida)@.len(),
            forall|k: int|
                0 <= k < salida@.len() ==> #[trigger] salida@[k] == if k < i {
                    k == codigo
                } else {
                    old(salida)@[k]
                },
        decreases salida@.len() - i,
    {
        salida[i] = codigo >= 0 && i == codigo as usize;
        i += 1;
    }
    assert(salida@ =~= una_activa(codigo, n, old(salida)@));
}

/// How the data of a DEVS port is represented in FMI.
///
/// FMI knows numbers, booleans, text and bytes; a DEVS model sends values of a type of its own.
/// This fixes the translation once for each type.
pub trait CargaFmi: Copy {
    /// The name of each variant, in order, to name the FMI variables by.
    fn variantes() -> (r: &'static [&'static str]);

    /// The code of this value, for an integer variable.
    fn codigo(&self) -> (r: i32);

    /// The way back, from a code to a value.
    fn desde_codigo(codigo: i32) -> (r: Option<Self>);

    /// One variable for each variant: on for the one at the place of this value's code, off for
    /// the others.
    fn una_por_variante(&self, salida: &mut [bool])
        ensures
            exists|c: i32, n: usize|
                {
                    &&& #[trigger] call_ensures(Self::codigo, (self,), c)
                    &&& #[trigger] call_ensures(Self::n_variables, (), n)
                    &&& final(salida)@ == una_activa(c, n, old(salida)@)
                },
    {
        let c: i32 = self.codigo();
        let n: usize = Self::n_variables();
        activa_una(c, n, salida);
    }

    /// How many variables one for each variant takes.
    fn n_variables() -> (r: usize)
        ensures
            exists|v: &'static [&'static str]| #[trigger]
                call_ensures(Self::variantes, (), v) && r == v@.len(),
    {
        Self::variantes().len()
    }
}

impl CargaFmi for bool {
    fn variantes() -> (r: &'static [&'static str])
        ensures
            r.deep_view() == seq!["false"@, "true"@],
    {
        let v: &'static [&'static str] = &["false", "true"];
        assert(v.deep_view() =~= seq!["false"@, "true"@]);
        v
    }

    fn codigo(&self) -> (r: i32)
        ensures
            r == if *self {
                1int
            } else {
                0
            },
    {
        if *self {
            1
        } else {
            0
        }
    }

    fn desde_codigo(codigo: i32) -> (r: Option<bool>)
        ensures
            r == if codigo == 0 {
                Some(false)
            } else if codigo == 1 {
                Some(true)
            } else {
                None
            },
    {
        if codigo == 0 {
            Some(false)
        } else if codigo == 1 {
            Some(true)
        } else {
            None
        }
    }
}

/// The code of a variant turns on exactly one variable, its own, where there is a place for each
/// variant; a code that is no place turns all of them off.
pub proof fn ley_una_activa(codigo: i32, n: usize, antes: Seq<bool>)
    requires
        n <= antes.len(),
    ensures
        una_activa(codigo, n, antes).len() == antes.len(),
        0 <= codigo < n ==> una_activa(codigo, n, antes)[codigo as int],
        forall|i: int|
            0 <= i < n && i != codigo ==> !#[trigger] una_activa(codigo, n, antes)[i],
        forall|i: int|
            n <= i < antes.len() ==> #[trigger] una_activa(codigo, n, antes)[i] == antes[i],
{
}

/// The place of the first value that is on, or -1 if none is.
pub open spec fn primer_lugar(coincide: Seq<bool>) -> int
    decreases coincide.len(),
{
    if coincide.len() == 0 {
        -1
    } else {
        let antes = primer_lugar(coincide.drop_last());
        if antes >= 0 {
            antes
        } else if coincide.last() {
            coincide.len() - 1
        } else {
            -1
        }
    }
}

/// The code of a value in a list of variants, given at which of them it stands: its first place,
/// or -1 if it is in none.
pub fn codigo_de(coincide: &[bool]) -> (r: i32)
    requires
        coincide@.len() <= i32::MAX,
    ensures
        r == primer_lugar(coincide@),
        r == -1 ==> forall|i: int| 0 <= i < coincide@.len() ==> !#[trigger] coincide@[i],
        r != -1 ==> 0 <= r < coincide@.len() && coincide@[r as int] && forall|i: int|
            0 <= i < r ==> !#[trigger] coincide@[i],
{
    let ghost cv = coincide@;
    let mut i: usize = 0;
    while i < coincide.len()
        invariant
            i <= coincide@.len(),
            cv == coincide@,
            coincide@.len() <= i32::MAX,
            primer_lugar(cv.take(i as int)) == -1,
            forall|k: int| 0 <= k < i ==> !#[trigger] cv[k],
        decreases coincide@.len() - i,
    {
        proof {
            assert(cv.take(i + 1).drop_last() =~= cv.take(i as int));
        }
        if coincide[i] {
            proof {
                lemma_primer_lugar(cv, i + 1);
            }
            return i as i32;
        }
        i += 1;
    }
    assert(cv.take(cv.len() as int) =~= cv);
    -1
}

/// A place found in a prefix is the place in the whole.
proof fn lemma_primer_lugar(c: Seq<bool>, n: int)
    requires
        0 <= n <= c.len(),
        primer_lugar(c.take(n)) >= 0,
    ensures
        primer_lugar(c) == primer_lugar(c.take(n)),
    decreases c.len(),
{
    if n == c.len() {
        assert(c.take(n) =~= c);
    } else {
        assert(c.drop_last().take(n) =~= c.take(n));
        lemma_primer_lugar(c.drop_last(), n);
    }
}

/// The place that a code stands for among `n` variants.
pub fn lugar_de(codigo: i32, n: usize) -> (r: Option<usize>)
    ensures
        r is Some <==> 0 <= codigo < n,
        r matches Some(i) ==> i == codigo,
{
    if codigo >= 0 && (codigo as usize) < n {
        Some(codigo as usize)
    } else {
        None
    }
}

/// Where a value stands in a list of variants.
pub open spec fn coincidencias<V>(variantes: Seq<V>, v: V) -> Seq<bool> {
    Seq::new(variantes.len(), |i: int| variantes[i] == v)
}

/// The codes of a list of variants without repetitions go there and back: the code of a variant
/// is its place, and a value that is not in the list has the code -1, which is no place.
pub proof fn ley_codigos<V>(variantes: Seq<V>, v: V)
    requires
        variantes.no_duplicates(),
    ensures
        forall|c: int|
            0 <= c < variantes.len() ==> primer_lugar(
                coincidencias(variantes, #[trigger] variantes[c]),
            ) == c,
        variantes.contains(v) ==> 0 <= primer_lugar(coincidencias(variantes, v)) < variantes.len()
            && variantes[primer_lugar(coincidencias(variantes, v))] == v,
        !variantes.contains(v) ==> primer_lugar(coincidencias(variantes, v)) == -1,
{
    assert forall|c: int| 0 <= c < variantes.len() implies primer_lugar(
        coincidencias(variantes, #[trigger] variantes[c]),
    ) == c by {
        let cs = coincidencias(variantes, variantes[c]);
        lemma_lugar(cs);
        assert(cs[c]);
        assert(variantes[primer_lugar(cs)] == variantes[c]);
    }
    lemma_lugar(coincidencias(variantes, v));
    let p = primer_lugar(coincidencias(variantes, v));
    if variantes.contains(v) {
        let k = choose|k: int| 0 <= k < variantes.len() && variantes[k] == v;
        assert(coincidencias(variantes, v)[k]);
        assert(coincidencias(variantes, v)[p]);
    }
}

/// The first place holds a value that is on, if there is one.
proof fn lemma_lugar(c: Seq<bool>)
    ensures
        -1 <= primer_lugar(c) < c.len(),
        primer_lugar(c) >= 0 ==> c[primer_lugar(c)],
        primer_lugar(c) == -1 ==> forall|i: int| 0 <= i < c.len() ==> !#[trigger] c[i],
    decreases c.len(),
{
    if c.len() > 0 {
        let d = c.drop_last();
        lemma_lugar(d);
        if primer_lugar(c) == -1 {
            assert forall|i: int| 0 <= i < c.len() implies !#[trigger] c[i] by {
                if i < d.len() {
                    assert(!d[i]);
                }
            }
        }
    }
}

}
