//! Text: identifiers in pascal and snake case, decimal numbers, and the concatenation of
//! pieces that generated code is made of.

use vstd::prelude::*;
use vstd::string::*;

verus! {

broadcast use vstd::string::group_string_axioms;

/// What `char::to_uppercase` yields for a character.
pub uninterp spec fn char_uppercase(c: char) -> Seq<char>;

/// What `char::to_lowercase` yields for a character.
pub uninterp spec fn char_lowercase(c: char) -> Seq<char>;

/// Whether `char::is_uppercase` holds of a character.
pub uninterp spec fn char_is_uppercase(c: char) -> bool;

/// A capital letter of ASCII.
pub open spec fn ascii_mayuscula(c: char) -> bool {
    'A' <= c <= 'Z'
}

/// A small letter of ASCII.
pub open spec fn ascii_minuscula(c: char) -> bool {
    'a' <= c <= 'z'
}

/// `char::to_uppercase`, its characters collected. The result depends on the character alone;
/// an ASCII character gives one character, the capital letter for a small one and itself for
/// any other. What it yields is the mapping of the Unicode character database, and no character
/// but the underscore itself is mapped there to text with an underscore.
#[verifier::external_body]
fn mayuscula(c: char) -> (r: String)
    ensures
        r@ == char_uppercase(c),
        c <= '\x7f' ==> r@ == seq![
            if ascii_minuscula(c) {
                (c as u8 - 32) as char
            } else {
                c
            },
        ],
        c != '_' ==> !r@.contains('_'),
{
    c.to_uppercase().to_string()
}

/// `char::to_lowercase`, its characters collected. The result depends on the character alone;
/// an ASCII character gives one character, the small letter for a capital one and itself for
/// any other.
#[verifier::external_body]
fn minuscula(c: char) -> (r: String)
    ensures
        r@ == char_lowercase(c),
        c <= '\x7f' ==> r@ == seq![
            if ascii_mayuscula(c) {
                (c as u8 + 32) as char
            } else {
                c
            },
        ],
{
    c.to_lowercase().to_string()
}

/// `char::is_uppercase`: the result depends on the character alone, and of the ASCII characters
/// exactly the capital letters have the property.
pub assume_specification[ char::is_uppercase ](c: char) -> (r: bool)
    ensures
        r == char_is_uppercase(c),
        c <= '\x7f' ==> r == ascii_mayuscula(c),
;

/// `String::push` appends the character at the end.
pub assume_specification[ String::push ](s: &mut String, c: char)
    ensures
        final(s)@ == old(s)@.push(c),
;

/// A character in upper case: the capital letter for a small one of ASCII, itself for any other
/// of ASCII.
pub open spec fn en_mayuscula(c: char) -> Seq<char> {
    if c > '\x7f' {
        char_uppercase(c)
    } else if ascii_minuscula(c) {
        seq![(c as u8 - 32) as char]
    } else {
        seq![c]
    }
}

/// A character in lower case: the small letter for a capital one of ASCII, itself for any other
/// of ASCII.
pub open spec fn en_minuscula(c: char) -> Seq<char> {
    if c > '\x7f' {
        char_lowercase(c)
    } else if ascii_mayuscula(c) {
        seq![(c as u8 + 32) as char]
    } else {
        seq![c]
    }
}

/// Whether a character is in upper case: in ASCII, whether it is a capital letter.
pub open spec fn es_mayuscula(c: char) -> bool {
    if c > '\x7f' {
        char_is_uppercase(c)
    } else {
        ascii_mayuscula(c)
    }
}

/// The concatenation of some pieces of text, in order.
pub open spec fn junta(piezas: Seq<Seq<char>>) -> Seq<char>
    decreases piezas.len(),
{
    if piezas.len() == 0 {
        Seq::empty()
    } else {
        junta(piezas.drop_last()) + piezas.last()
    }
}

/// What position `i` of a snake-case name contributes to its pascal-case form: underscores
/// vanish, and the first character of each word goes to upper case.
pub open spec fn pieza_pascal(s: Seq<char>, i: int) -> Seq<char> {
    if s[i] == '_' {
        Seq::empty()
    } else if i == 0 || s[i - 1] == '_' {
        en_mayuscula(s[i])
    } else {
        seq![s[i]]
    }
}

/// A name in pascal case: its words, without the underscores between them, each with its first
/// character in upper case.
pub open spec fn pascal_spec(s: Seq<char>) -> Seq<char> {
    junta(Seq::new(s.len(), |i: int| pieza_pascal(s, i)))
}

/// What position `i` of a name contributes to its snake-case form: an upper-case character goes
/// to lower case, behind an underscore unless it comes first.
pub open spec fn pieza_snake(s: Seq<char>, i: int) -> Seq<char> {
    if es_mayuscula(s[i]) {
        if i == 0 {
            en_minuscula(s[i])
        } else {
            seq!['_'] + en_minuscula(s[i])
        }
    } else {
        seq![s[i]]
    }
}

/// A name in snake case.
pub open spec fn snake_spec(s: Seq<char>) -> Seq<char> {
    junta(Seq::new(s.len(), |i: int| pieza_snake(s, i)))
}

pub proof fn lemma_junta_toma(piezas: Seq<Seq<char>>, i: int)
    requires
        0 <= i < piezas.len(),
    ensures
        junta(piezas.take(i + 1)) == junta(piezas.take(i)) + piezas[i],
{
    assert(piezas.take(i + 1).drop_last() =~= piezas.take(i));
}

/// Turns a snake-case name into a pascal-case one (`pulso_ev` into `PulsoEv`). No underscore is
/// left.
pub fn pascal(name: &str) -> (r: String)
    ensures
        r@ == pascal_spec(name@),
        !r@.contains('_'),
{
    let mut out = String::new();
    let ghost piezas = Seq::new(name@.len(), |i: int| pieza_pascal(name@, i));
    let mut inicio = true;
    assert(piezas.take(0) =~= Seq::empty());
    for c in it: name.chars()
        invariant
            it.seq() == name@,
            piezas == Seq::new(name@.len(), |i: int| pieza_pascal(name@, i)),
            out@ == junta(piezas.take(it.index())),
            !out@.contains('_'),
            inicio == (it.index() == 0 || name@[it.index() - 1] == '_'),
    {
        proof {
            lemma_junta_toma(piezas, it.index());
        }
        if c == '_' {
            inicio = true;
        } else {
            if inicio {
                out.append(mayuscula(c).as_str());
            } else {
                out.push(c);
            }
            inicio = false;
        }
    }
    assert(piezas.take(name@.len() as int) =~= piezas);
    out
}

/// Turns a pascal-case name into a snake-case one (`NivelAlto` into `nivel_alto`).
pub fn to_snake(name: &str) -> (r: String)
    ensures
        r@ == snake_spec(name@),
{
    let mut out = String::new();
    let ghost piezas = Seq::new(name@.len(), |i: int| pieza_snake(name@, i));
    let mut primero = true;
    assert(piezas.take(0) =~= Seq::empty());
    for c in it: name.chars()
        invariant
            it.seq() == name@,
            piezas == Seq::new(name@.len(), |i: int| pieza_snake(name@, i)),
            out@ == junta(piezas.take(it.index())),
            primero == (it.index() == 0),
    {
        proof {
            lemma_junta_toma(piezas, it.index());
        }
        if c.is_uppercase() {
            if !primero {
                out.push('_');
            }
            out.append(minuscula(c).as_str());
        } else {
            out.push(c);
        }
        primero = false;
    }
    assert(piezas.take(name@.len() as int) =~= piezas);
    out
}

/// A decimal digit as a character.
pub open spec fn cifra(n: nat) -> char {
    (48 + n) as char
}

/// A number in decimal, without leading zeros.
pub open spec fn decimal(n: nat) -> Seq<char>
    decreases n,
{
    if n < 10 {
        seq![cifra(n)]
    } else {
        decimal(n / 10).push(cifra(n % 10))
    }
}

/// Writes a number in decimal.
pub(crate) fn a_decimal(n: usize) -> (r: String)
    ensures
        r@ == decimal(n as nat),
    decreases n,
{
    if n < 10 {
        let mut s = String::new();
        s.push((48u8 + n as u8) as char);
        assert(s@ =~= decimal(n as nat));
        s
    } else {
        let mut s = a_decimal(n / 10);
        s.push((48u8 + (n % 10) as u8) as char);
        s
    }
}

/// An identifier without its raw prefix `r#`.
pub open spec fn sin_raw(id: Seq<char>) -> Seq<char> {
    if id.len() >= 2 && id[0] == 'r' && id[1] == '#' {
        id.skip(2)
    } else {
        id
    }
}

/// Takes the raw prefix `r#` off an identifier, where it has one.
pub(crate) fn quita_raw(id: &str) -> (r: String)
    ensures
        r@ == sin_raw(id@),
{
    let n: usize = id.unicode_len();
    if n >= 2 && id.get_char(0) == 'r' && id.get_char(1) == '#' {
        let s = id.substring_char(2, n).to_owned();
        assert(s@ =~= id@.skip(2));
        s
    } else {
        id.to_owned()
    }
}

/// Whether a string holds the text of a literal.
pub(crate) fn es(s: &String, texto: &str) -> (r: bool)
    ensures
        r == (s@ == texto@),
{
    *s == texto.to_owned()
}

/// Two texts, one behind the other.
pub(crate) fn une(a: &str, b: &str) -> (r: String)
    ensures
        r@ == a@ + b@,
{
    let mut s = a.to_owned();
    s.append(b);
    s
}

}
