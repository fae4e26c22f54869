//! The JSON value model and the wire codec.
//!
//! Every payload of the bridge protocol is JSON text. Values are modelled by
//! [`Json`]; the codec is `encode` and `parse`. The encoder emits the compact
//! form (no whitespace), which is also the form the script engine's
//! serializer produces; `parse` guarantees that every encoded value is read
//! back unchanged (the round-trip law), stated in its `ensures`.
//!
//! Numbers are integers: no payload of the protocol carries a fractional
//! value, and the handlers produce only integral numbers.

use vstd::prelude::*;

verus! {

broadcast use vstd::std_specs::vec::group_vec_axioms, vstd::seq::group_seq_axioms;

/// A JSON value. Strings are kept as indexable character vectors.
#[derive(Debug, PartialEq)]
pub enum Json {
    Null,
    Bool(bool),
    Num(i64),
    Str(Vec<char>),
    Arr(Vec<Json>),
    Obj(Vec<(Vec<char>, Json)>),
}

/// The mathematical model of a JSON value.
#[verifier::ext_equal]
pub enum JsonV {
    Null,
    Bool(bool),
    Num(i64),
    Str(Seq<char>),
    Arr(Seq<JsonV>),
    Obj(Seq<(Seq<char>, JsonV)>),
}

/// The model of a value.
pub open spec fn jview(j: Json) -> JsonV
    decreases j,
{
    match j {
        Json::Null => JsonV::Null,
        Json::Bool(b) => JsonV::Bool(b),
        Json::Num(n) => JsonV::Num(n),
        Json::Str(s) => JsonV::Str(s@),
        Json::Arr(a) => JsonV::Arr(jviews(a@)),
        Json::Obj(o) => JsonV::Obj(mviews(o@)),
    }
}

/// The models of a sequence of values, in order.
pub open spec fn jviews(s: Seq<Json>) -> Seq<JsonV>
    decreases s,
{
    if s.len() == 0 {
        Seq::empty()
    } else {
        seq![jview(s[0])] + jviews(s.skip(1))
    }
}

/// The models of a sequence of object members, in order.
pub open spec fn mviews(s: Seq<(Vec<char>, Json)>) -> Seq<(Seq<char>, JsonV)>
    decreases s,
{
    if s.len() == 0 {
        Seq::empty()
    } else {
        seq![(s[0].0@, jview(s[0].1))] + mviews(s.skip(1))
    }
}

impl View for Json {
    type V = JsonV;

    open spec fn view(&self) -> JsonV {
        jview(*self)
    }
}

pub broadcast proof fn lemma_jviews_len(s: Seq<Json>)
    ensures
        #[trigger] jviews(s).len() == s.len(),
    decreases s.len(),
{
    if s.len() > 0 {
        lemma_jviews_len(s.skip(1));
    }
}

pub broadcast proof fn lemma_jviews_index(s: Seq<Json>, i: int)
    requires
        0 <= i < s.len(),
    ensures
        jviews(s).len() == s.len(),
        #[trigger] jviews(s)[i] == jview(s[i]),
    decreases s.len(),
{
    lemma_jviews_len(s);
    if i > 0 {
        lemma_jviews_index(s.skip(1), i - 1);
    }
}

pub broadcast proof fn lemma_mviews_len(s: Seq<(Vec<char>, Json)>)
    ensures
        #[trigger] mviews(s).len() == s.len(),
    decreases s.len(),
{
    if s.len() > 0 {
        lemma_mviews_len(s.skip(1));
    }
}

pub broadcast proof fn lemma_mviews_index(s: Seq<(Vec<char>, Json)>, i: int)
    requires
        0 <= i < s.len(),
    ensures
        mviews(s).len() == s.len(),
        #[trigger] mviews(s)[i] == (s[i].0@, jview(s[i].1)),
    decreases s.len(),
{
    lemma_mviews_len(s);
    if i > 0 {
        lemma_mviews_index(s.skip(1), i - 1);
    }
}

pub proof fn lemma_jviews_push(s: Seq<Json>, x: Json)
    ensures
        jviews(s.push(x)) == jviews(s).push(jview(x)),
    decreases s.len(),
{
    if s.len() == 0 {
        assert(s.push(x)[0] == x);
        assert(s.push(x).skip(1) =~= Seq::<Json>::empty());
        assert(jviews(s.push(x)) == seq![jview(s.push(x)[0])] + jviews(s.push(x).skip(1)));
        assert(jviews(s) == Seq::<JsonV>::empty());
        assert(jviews(s.push(x).skip(1)) == jviews(Seq::<Json>::empty()));
        assert(jviews(Seq::<Json>::empty()) == Seq::<JsonV>::empty());
        assert(seq![jview(x)] + Seq::<JsonV>::empty() =~= Seq::<JsonV>::empty().push(jview(x)));
    } else {
        assert(s.push(x)[0] == s[0]);
        assert(s.push(x).skip(1) =~= s.skip(1).push(x));
        lemma_jviews_push(s.skip(1), x);
        assert((seq![jview(s[0])] + jviews(s.skip(1)).push(jview(x))) =~= (seq![jview(s[0])]
            + jviews(s.skip(1))).push(jview(x)));
    }
}

pub proof fn lemma_mviews_push(s: Seq<(Vec<char>, Json)>, x: (Vec<char>, Json))
    ensures
        mviews(s.push(x)) == mviews(s).push((x.0@, jview(x.1))),
    decreases s.len(),
{
    if s.len() == 0 {
        assert(s.push(x)[0] == x);
        assert(s.push(x).skip(1) =~= Seq::<(Vec<char>, Json)>::empty());
        assert(mviews(s.push(x)) == seq![(s.push(x)[0].0@, jview(s.push(x)[0].1))] + mviews(
            s.push(x).skip(1),
        ));
        assert(mviews(s) == Seq::<(Seq<char>, JsonV)>::empty());
        assert(mviews(s.push(x).skip(1)) == mviews(Seq::<(Vec<char>, Json)>::empty()));
        assert(mviews(Seq::<(Vec<char>, Json)>::empty()) == Seq::<(Seq<char>, JsonV)>::empty());
        assert(seq![(x.0@, jview(x.1))] + Seq::<(Seq<char>, JsonV)>::empty() =~= Seq::<(
            Seq<char>,
            JsonV,
        )>::empty().push((x.0@, jview(x.1))));
    } else {
        assert(s.push(x)[0] == s[0]);
        assert(s.push(x).skip(1) =~= s.skip(1).push(x));
        lemma_mviews_push(s.skip(1), x);
        assert((seq![(s[0].0@, jview(s[0].1))] + mviews(s.skip(1)).push((x.0@, jview(x.1)))) =~= (
        seq![(s[0].0@, jview(s[0].1))] + mviews(s.skip(1))).push((x.0@, jview(x.1))));
    }
}

// ---------------------------------------------------------------------------
// The encoding, as a specification.
// ---------------------------------------------------------------------------

/// The decimal digit character for `d` (which must be below ten).
pub open spec fn digit_char(d: nat) -> char {
    if d == 0 { '0' } else if d == 1 { '1' } else if d == 2 { '2' } else if d == 3 { '3' }
    else if d == 4 { '4' } else if d == 5 { '5' } else if d == 6 { '6' } else if d == 7 { '7' }
    else if d == 8 { '8' } else { '9' }
}

/// The lower-case hexadecimal digit character for `d` (which must be below sixteen).
pub open spec fn hex_char(d: nat) -> char {
    if d < 10 { digit_char(d) }
    else if d == 10 { 'a' } else if d == 11 { 'b' } else if d == 12 { 'c' }
    else if d == 13 { 'd' } else if d == 14 { 'e' } else { 'f' }
}

/// The decimal digits of `n`, most significant first.
pub open spec fn dec_digits(n: nat) -> Seq<char>
    decreases n,
{
    if n < 10 { seq![digit_char(n)] } else { dec_digits(n / 10).push(digit_char(n % 10)) }
}

/// The character sequence of an integer: an optional minus sign and digits.
pub open spec fn num_chars(n: i64) -> Seq<char> {
    if n < 0 { seq!['-'] + dec_digits((-(n as int)) as nat) } else { dec_digits(n as nat) }
}

/// How one character is written inside a JSON string literal.
pub open spec fn esc_char(c: char) -> Seq<char> {
    if c == '"' { seq!['\\', '"'] }
    else if c == '\\' { seq!['\\', '\\'] }
    else if c == '\n' { seq!['\\', 'n'] }
    else if c == '\t' { seq!['\\', 't'] }
    else if c == '\r' { seq!['\\', 'r'] }
    else if (c as u32) < 32 {
        seq!['\\', 'u', '0', '0', hex_char((c as u32 / 16) as nat), hex_char((c as u32 % 16) as nat)]
    } else { seq![c] }
}

/// The body of a JSON string literal: each character escaped as needed.
pub open spec fn esc_str(s: Seq<char>) -> Seq<char>
    decreases s.len(),
{
    if s.len() == 0 { Seq::empty() } else { esc_char(s[0]) + esc_str(s.skip(1)) }
}

/// The compact JSON text of a value.
pub open spec fn encoded(v: JsonV) -> Seq<char>
    decreases v,
{
    match v {
        JsonV::Null => seq!['n', 'u', 'l', 'l'],
        JsonV::Bool(b) => if b { seq!['t', 'r', 'u', 'e'] } else { seq!['f', 'a', 'l', 's', 'e'] },
        JsonV::Num(n) => num_chars(n),
        JsonV::Str(s) => seq!['"'] + esc_str(s) + seq!['"'],
        JsonV::Arr(a) => seq!['['] + encoded_elems(a) + seq![']'],
        JsonV::Obj(o) => seq!['{'] + encoded_members(o) + seq!['}'],
    }
}

/// The comma-joined texts of array elements.
pub open spec fn encoded_elems(a: Seq<JsonV>) -> Seq<char>
    decreases a,
{
    if a.len() == 0 {
        Seq::empty()
    } else if a.len() == 1 {
        encoded(a[0])
    } else {
        encoded(a[0]) + seq![','] + encoded_elems(a.skip(1))
    }
}

/// The comma-joined `"key":value` texts of object members.
pub open spec fn encoded_members(o: Seq<(Seq<char>, JsonV)>) -> Seq<char>
    decreases o,
{
    if o.len() == 0 {
        Seq::empty()
    } else if o.len() == 1 {
        encoded_member(o[0])
    } else {
        encoded_member(o[0]) + seq![','] + encoded_members(o.skip(1))
    }
}

/// The `"key":value` text of one object member.
pub open spec fn encoded_member(m: (Seq<char>, JsonV)) -> Seq<char>
    decreases m,
{
    seq!['"'] + esc_str(m.0) + seq!['"', ':'] + encoded(m.1)
}

/// Joining grows at the tail: pushing an element appends `,` and its text.
pub proof fn lemma_encoded_elems_push(a: Seq<JsonV>, v: JsonV)
    ensures
        encoded_elems(a.push(v)) == if a.len() == 0 { encoded(v) } else {
            encoded_elems(a) + seq![','] + encoded(v)
        },
    decreases a.len(),
{
    if a.len() == 0 {
        assert(a.push(v).len() == 1);
        assert(a.push(v)[0] == v);
    } else if a.len() == 1 {
        assert(a.push(v)[0] == a[0]);
        assert(a.push(v).skip(1) =~= seq![v]);
        assert(encoded_elems(seq![v]) == encoded(v));
    } else {
        assert(a.push(v)[0] == a[0]);
        assert(a.push(v).skip(1) =~= a.skip(1).push(v));
        lemma_encoded_elems_push(a.skip(1), v);
        assert(encoded_elems(a.skip(1).push(v)) == encoded_elems(a.skip(1)) + seq![','] + encoded(
            v,
        ));
        assert((encoded(a[0]) + seq![','] + (encoded_elems(a.skip(1)) + seq![','] + encoded(v)))
            =~= ((encoded(a[0]) + seq![','] + encoded_elems(a.skip(1))) + seq![','] + encoded(v)));
    }
}

/// The member analogue of `lemma_encoded_elems_push`.
pub proof fn lemma_encoded_members_push(o: Seq<(Seq<char>, JsonV)>, m: (Seq<char>, JsonV))
    ensures
        encoded_members(o.push(m)) == if o.len() == 0 { encoded_member(m) } else {
            encoded_members(o) + seq![','] + encoded_member(m)
        },
    decreases o.len(),
{
    if o.len() == 0 {
        assert(o.push(m).len() == 1);
        assert(o.push(m)[0] == m);
    } else if o.len() == 1 {
        assert(o.push(m)[0] == o[0]);
        assert(o.push(m).skip(1) =~= seq![m]);
        assert(encoded_members(seq![m]) == encoded_member(m));
    } else {
        assert(o.push(m)[0] == o[0]);
        assert(o.push(m).skip(1) =~= o.skip(1).push(m));
        lemma_encoded_members_push(o.skip(1), m);
        assert((encoded_member(o[0]) + seq![','] + (encoded_members(o.skip(1)) + seq![',']
            + encoded_member(m))) =~= ((encoded_member(o[0]) + seq![','] + encoded_members(
            o.skip(1),
        )) + seq![','] + encoded_member(m)));
    }
}

// ---------------------------------------------------------------------------
// The encoder.
// ---------------------------------------------------------------------------

/// The decimal digit character for `d`.
fn digit_of(d: u64) -> (r: char)
    requires
        d < 10,
    ensures
        r == digit_char(d as nat),
{
    if d == 0 { '0' } else if d == 1 { '1' } else if d == 2 { '2' } else if d == 3 { '3' }
    else if d == 4 { '4' } else if d == 5 { '5' } else if d == 6 { '6' } else if d == 7 { '7' }
    else if d == 8 { '8' } else { '9' }
}

/// The lower-case hexadecimal digit character for `d`.
fn hex_of(d: u32) -> (r: char)
    requires
        d < 16,
    ensures
        r == hex_char(d as nat),
{
    if d < 10 { digit_of(d as u64) }
    else if d == 10 { 'a' } else if d == 11 { 'b' } else if d == 12 { 'c' }
    else if d == 13 { 'd' } else if d == 14 { 'e' } else { 'f' }
}

/// Appends the decimal digits of `n`.
fn push_digits(out: &mut Vec<char>, n: u64)
    ensures
        final(out)@ == old(out)@ + dec_digits(n as nat),
    decreases n,
{
    if n < 10 {
        out.push(digit_of(n));
        proof {
            assert(final(out)@ =~= old(out)@ + dec_digits(n as nat));
        }
    } else {
        push_digits(out, n / 10);
        out.push(digit_of(n % 10));
        proof {
            assert(final(out)@ =~= old(out)@ + dec_digits(n as nat));
        }
    }
}

/// Appends the text of an integer.
fn push_num(out: &mut Vec<char>, n: i64)
    ensures
        final(out)@ == old(out)@ + num_chars(n),
{
    if n < 0 {
        out.push('-');
        let m: u64 = ((-(n + 1)) as u64) + 1;
        proof {
            assert(m as nat == (-(n as int)) as nat);
        }
        push_digits(out, m);
        proof {
            assert(final(out)@ =~= old(out)@ + num_chars(n));
        }
    } else {
        push_digits(out, n as u64);
    }
}

/// Appends the escaped body of a string literal.
#[verifier::loop_isolation(false)]
fn push_escaped(out: &mut Vec<char>, s: &Vec<char>)
    ensures
        final(out)@ == old(out)@ + esc_str(s@),
{
    let mut i: usize = 0;
    proof {
        assert(out@ =~= old(out)@ + esc_str(s@.subrange(0, 0)));
    }
    while i < s.len()
        invariant
            i <= s@.len(),
            out@ == old(out)@ + esc_str(s@.subrange(0, i as int)),
        decreases s@.len() - i,
    {
        let ghost pre = out@;
        let c = s[i];
        if c == '"' {
            out.push('\\');
            out.push('"');
        } else if c == '\\' {
            out.push('\\');
            out.push('\\');
        } else if c == '\n' {
            out.push('\\');
            out.push('n');
        } else if c == '\t' {
            out.push('\\');
            out.push('t');
        } else if c == '\r' {
            out.push('\\');
            out.push('r');
        } else if (c as u32) < 32 {
            out.push('\\');
            out.push('u');
            out.push('0');
            out.push('0');
            out.push(hex_of((c as u32) / 16));
            out.push(hex_of((c as u32) % 16));
        } else {
            out.push(c);
        }
        proof {
            assert(out@ =~= pre + esc_char(c));
            lemma_esc_str_push(s@.subrange(0, i as int), c);
            assert(s@.subrange(0, i + 1 as int) =~= s@.subrange(0, i as int).push(c));
        }
        i += 1;
    }
    proof {
        assert(s@.subrange(0, s@.len() as int) =~= s@);
    }
}

/// Escaping grows at the tail, one character at a time.
proof fn lemma_esc_str_push(s: Seq<char>, c: char)
    ensures
        esc_str(s.push(c)) == esc_str(s) + esc_char(c),
    decreases s.len(),
{
    if s.len() == 0 {
        assert(s.push(c)[0] == c);
        assert(s.push(c).skip(1) =~= Seq::<char>::empty());
        assert(esc_str(s.push(c)) == esc_char(c) + esc_str(Seq::<char>::empty()));
        assert(esc_char(c) + Seq::<char>::empty() =~= esc_char(c));
        assert(esc_str(s) + esc_char(c) =~= esc_char(c));
    } else {
        assert(s.push(c)[0] == s[0]);
        assert(s.push(c).skip(1) =~= s.skip(1).push(c));
        lemma_esc_str_push(s.skip(1), c);
        assert((esc_char(s[0]) + (esc_str(s.skip(1)) + esc_char(c))) =~= ((esc_char(s[0]) + esc_str(
            s.skip(1),
        )) + esc_char(c)));
    }
}

/// Appends the compact JSON text of a value.
#[verifier::loop_isolation(false)]
fn push_json(out: &mut Vec<char>, j: &Json)
    ensures
        final(out)@ == old(out)@ + encoded(jview(*j)),
    decreases *j,
{
    match j {
        Json::Null => {
            out.push('n');
            out.push('u');
            out.push('l');
            out.push('l');
            proof {
                assert(final(out)@ =~= old(out)@ + encoded(jview(*j)));
            }
        },
        Json::Bool(b) => {
            if *b {
                out.push('t');
                out.push('r');
                out.push('u');
                out.push('e');
            } else {
                out.push('f');
                out.push('a');
                out.push('l');
                out.push('s');
                out.push('e');
            }
            proof {
                assert(final(out)@ =~= old(out)@ + encoded(jview(*j)));
            }
        },
        Json::Num(n) => {
            push_num(out, *n);
        },
        Json::Str(s) => {
            out.push('"');
            push_escaped(out, s);
            out.push('"');
            proof {
                assert(final(out)@ =~= old(out)@ + encoded(jview(*j)));
            }
        },
        Json::Arr(a) => {
            out.push('[');
            let ghost base = out@;
            let mut i: usize = 0;
            proof {
                assert(a@.subrange(0, 0) =~= Seq::<Json>::empty());
            }
            while i < a.len()
                invariant
                    i <= a@.len(),
                    base == old(out)@ + seq!['['],
                    out@ == base + encoded_elems(jviews(a@.subrange(0, i as int))),
                decreases a@.len() - i,
            {
                proof {
                    assert(decreases_to!(*j => a@[i as int]));
                }
                let ghost pre = out@;
                if i > 0 {
                    out.push(',');
                }
                push_json(out, &a[i]);
                proof {
                    let prefix = a@.subrange(0, i as int);
                    lemma_jviews_len(prefix);
                    lemma_jviews_push(prefix, a@[i as int]);
                    lemma_encoded_elems_push(jviews(prefix), jview(a@[i as int]));
                    assert(a@.subrange(0, i + 1 as int) =~= prefix.push(a@[i as int]));
                    assert(out@ =~= base + encoded_elems(jviews(a@.subrange(0, i + 1 as int))));
                }
                i += 1;
            }
            out.push(']');
            proof {
                assert(a@.subrange(0, a@.len() as int) =~= a@);
                assert(final(out)@ =~= old(out)@ + encoded(jview(*j)));
            }
        },
        Json::Obj(o) => {
            out.push('{');
            let ghost base = out@;
            let mut i: usize = 0;
            proof {
                assert(o@.subrange(0, 0) =~= Seq::<(Vec<char>, Json)>::empty());
            }
            while i < o.len()
                invariant
                    i <= o@.len(),
                    base == old(out)@ + seq!['{'],
                    out@ == base + encoded_members(mviews(o@.subrange(0, i as int))),
                decreases o@.len() - i,
            {
                proof {
                    assert(decreases_to!(*j => o@[i as int]));
                    assert(decreases_to!(o@[i as int] => o@[i as int].1));
                }
                let ghost pre = out@;
                if i > 0 {
                    out.push(',');
                }
                out.push('"');
                push_escaped(out, &o[i].0);
                out.push('"');
                out.push(':');
                push_json(out, &o[i].1);
                proof {
                    let prefix = o@.subrange(0, i as int);
                    let m = (o@[i as int].0@, jview(o@[i as int].1));
                    if i > 0 {
                        assert(out@ =~= pre + seq![','] + encoded_member(m));
                    } else {
                        assert(out@ =~= pre + encoded_member(m));
                    }
                    lemma_mviews_len(prefix);
                    lemma_mviews_push(prefix, o@[i as int]);
                    lemma_encoded_members_push(mviews(prefix), m);
                    assert(o@.subrange(0, i + 1 as int) =~= prefix.push(o@[i as int]));
                    assert(out@ =~= base + encoded_members(mviews(o@.subrange(0, i + 1 as int))));
                }
                i += 1;
            }
            out.push('}');
            proof {
                assert(o@.subrange(0, o@.len() as int) =~= o@);
                assert(final(out)@ =~= old(out)@ + encoded(jview(*j)));
            }
        },
    }
}

/// The compact JSON text of a value.
pub fn encode(j: &Json) -> (r: Vec<char>)
    ensures
        r@ == encoded(j@),
{
    let mut out: Vec<char> = Vec::new();
    push_json(&mut out, j);
    proof {
        assert(out@ =~= encoded(j@));
    }
    out
}

// ---------------------------------------------------------------------------
// The parser: every encoded value is read back unchanged.
// ---------------------------------------------------------------------------

/// A decimal digit character.
pub open spec fn is_digit(c: char) -> bool {
    c == '0' || c == '1' || c == '2' || c == '3' || c == '4' || c == '5' || c == '6' || c == '7'
        || c == '8' || c == '9'
}

/// The value of a decimal digit character.
pub open spec fn digit_val_c(c: char) -> nat {
    if c == '0' { 0 } else if c == '1' { 1 } else if c == '2' { 2 } else if c == '3' { 3 }
    else if c == '4' { 4 } else if c == '5' { 5 } else if c == '6' { 6 } else if c == '7' { 7 }
    else if c == '8' { 8 } else { 9 }
}

/// The value of a string of decimal digits.
pub open spec fn digit_val(s: Seq<char>) -> nat
    decreases s.len(),
{
    if s.len() == 0 { 0 } else { digit_val(s.drop_last()) * 10 + digit_val_c(s.last()) }
}

/// The digits of a number are digits, and they read back as the number.
proof fn lemma_dec_digits(n: nat)
    ensures
        dec_digits(n).len() >= 1,
        forall|i: int| 0 <= i < dec_digits(n).len() ==> is_digit(#[trigger] dec_digits(n)[i]),
        digit_val(dec_digits(n)) == n,
    decreases n,
{
    if n < 10 {
        assert(dec_digits(n) == seq![digit_char(n)]);
        assert(dec_digits(n).drop_last() =~= Seq::<char>::empty());
        assert(is_digit(digit_char(n)));
        assert(digit_val_c(digit_char(n)) == n);
        assert(digit_val(dec_digits(n)) == digit_val(Seq::<char>::empty()) * 10 + digit_val_c(
            digit_char(n),
        ));
    } else {
        lemma_dec_digits(n / 10);
        let d = dec_digits(n / 10);
        let last = digit_char(n % 10);
        assert(dec_digits(n) == d.push(last));
        assert(d.push(last).drop_last() =~= d);
        assert(d.push(last).last() == last);
        assert(is_digit(last));
        assert(digit_val_c(last) == n % 10);
        assert(digit_val(dec_digits(n)) == digit_val(d) * 10 + digit_val_c(last));
        assert(digit_val(d) * 10 + digit_val_c(last) == (n / 10) * 10 + n % 10);
        assert((n / 10) * 10 + n % 10 == n) by (nonlinear_arith);
        assert(forall|i: int|
            0 <= i < dec_digits(n).len() ==> is_digit(#[trigger] dec_digits(n)[i]));
    }
}

/// A prefix of a digit string is worth no more than the whole.
proof fn lemma_digit_val_prefix(s: Seq<char>, k: int)
    requires
        0 <= k <= s.len(),
    ensures
        digit_val(s.subrange(0, k)) <= digit_val(s),
    decreases s.len() - k,
{
    if k == s.len() {
        assert(s.subrange(0, k) =~= s);
    } else {
        lemma_digit_val_prefix(s.drop_last(), k);
        assert(s.drop_last().subrange(0, k) =~= s.subrange(0, k));
    }
}

/// Reading one more digit multiplies by ten and adds it.
proof fn lemma_digit_val_step(s: Seq<char>, k: int)
    requires
        0 <= k < s.len(),
    ensures
        digit_val(s.subrange(0, k + 1)) == digit_val(s.subrange(0, k)) * 10 + digit_val_c(s[k]),
{
    assert(s.subrange(0, k + 1).drop_last() =~= s.subrange(0, k));
    assert(s.subrange(0, k + 1).last() == s[k]);
}

/// The shape of the number text: an optional minus sign, then digits.
proof fn lemma_num_chars(n: i64)
    ensures
        num_chars(n).len() >= 1,
        n < 0 ==> num_chars(n) == seq!['-'] + dec_digits((-(n as int)) as nat),
        n >= 0 ==> num_chars(n) == dec_digits(n as nat),
        (num_chars(n)[0] == '-') == (n < 0),
        !is_digit('-'),
{
    if n < 0 {
        lemma_dec_digits((-(n as int)) as nat);
        assert(num_chars(n)[0] == '-');
    } else {
        lemma_dec_digits(n as nat);
        assert(num_chars(n)[0] == dec_digits(n as nat)[0]);
        assert(is_digit(num_chars(n)[0]));
    }
}

/// Characters of a prefix match the enclosing text, one by one.
proof fn lemma_prefix_index(s: Seq<char>, pos: int, x: Seq<char>, i: int)
    requires
        0 <= pos,
        pos + x.len() <= s.len(),
        s.subrange(pos, pos + x.len()) == x,
        0 <= i < x.len(),
    ensures
        s[pos + i] == x[i],
{
    assert(s.subrange(pos, pos + x.len())[i] == s[pos + i]);
}

/// A prefix made of two parts splits into prefixes of each part.
proof fn lemma_prefix_split(s: Seq<char>, pos: int, x: Seq<char>, y: Seq<char>)
    requires
        0 <= pos,
        pos + x.len() + y.len() <= s.len(),
        s.subrange(pos, pos + x.len() + y.len()) == x + y,
    ensures
        s.subrange(pos, pos + x.len()) == x,
        s.subrange(pos + x.len(), pos + x.len() + y.len()) == y,
{
    assert forall|i: int| 0 <= i < x.len() implies s.subrange(pos, pos + x.len())[i] == x[i] by {
        assert(s.subrange(pos, pos + x.len() + y.len())[i] == s[pos + i]);
        assert((x + y)[i] == x[i]);
    }
    assert(s.subrange(pos, pos + x.len()) =~= x);
    assert forall|i: int| 0 <= i < y.len() implies s.subrange(
        pos + x.len(),
        pos + x.len() + y.len(),
    )[i] == y[i] by {
        assert(s.subrange(pos, pos + x.len() + y.len())[x.len() + i] == s[pos + x.len() + i]);
        assert((x + y)[x.len() + i] == y[i]);
    }
    assert(s.subrange(pos + x.len(), pos + x.len() + y.len()) =~= y);
}

/// What the first character of an encoding can be, per kind of value.
proof fn lemma_encoded_first(v: JsonV)
    ensures
        encoded(v).len() >= 1,
        v is Null ==> encoded(v) == seq!['n', 'u', 'l', 'l'],
        v is Bool ==> encoded(v)[0] == 't' || encoded(v)[0] == 'f',
        v is Num ==> (encoded(v)[0] == '-' || is_digit(encoded(v)[0])),
        v is Str ==> encoded(v)[0] == '"',
        v is Arr ==> encoded(v)[0] == '[',
        v is Obj ==> encoded(v)[0] == '{',
{
    match v {
        JsonV::Num(n) => {
            lemma_num_chars(n);
            if n >= 0 {
                lemma_dec_digits(n as nat);
            }
        },
        JsonV::Str(s) => {
            assert(encoded(v)[0] == '"');
        },
        JsonV::Arr(a) => {
            assert(encoded(v)[0] == '[');
        },
        JsonV::Obj(o) => {
            assert(encoded(v)[0] == '{');
        },
        _ => {},
    }
}

/// How one escaped character starts, and what its second character decides.
proof fn lemma_esc_char(c: char)
    ensures
        1 <= esc_char(c).len(),
        esc_char(c)[0] != '"',
        esc_char(c)[0] == '\\' || esc_char(c) == seq![c],
        esc_char(c)[0] == '\\' ==> esc_char(c).len() >= 2,
        esc_char(c)[0] == '\\' && esc_char(c)[1] == '"' ==> c == '"',
        esc_char(c)[0] == '\\' && esc_char(c)[1] == '\\' ==> c == '\\',
        esc_char(c)[0] == '\\' && esc_char(c)[1] == 'n' ==> c == '\n',
        esc_char(c)[0] == '\\' && esc_char(c)[1] == 't' ==> c == '\t',
        esc_char(c)[0] == '\\' && esc_char(c)[1] == 'r' ==> c == '\r',
        esc_char(c)[0] == '\\' && esc_char(c)[1] == 'u' ==> ((c as u32) < 32 && esc_char(c).len()
            == 6 && esc_char(c)[2] == '0' && esc_char(c)[3] == '0' && esc_char(c)[4] == hex_char(
            ((c as u32) / 16) as nat,
        ) && esc_char(c)[5] == hex_char(((c as u32) % 16) as nat)),
        esc_char(c)[0] == '\\' ==> (esc_char(c)[1] == '"' || esc_char(c)[1] == '\\' || esc_char(
            c,
        )[1] == 'n' || esc_char(c)[1] == 't' || esc_char(c)[1] == 'r' || esc_char(c)[1] == 'u'),
{
    if c == '"' || c == '\\' || c == '\n' || c == '\t' || c == '\r' {
    } else if (c as u32) < 32 {
        assert(hex_char(((c as u32) / 16) as nat) == if (c as u32) / 16 == 0 { '0' } else { '1' });
    } else {
        assert(esc_char(c) == seq![c]);
    }
}

/// The hexadecimal digit characters decode to their values.
fn hex_digit(c: char) -> (r: Option<u32>)
    ensures
        forall|d: nat| d < 16 && c == hex_char(d) ==> r == Some(d as u32),
        r matches Some(d) ==> d < 16,
{
    if c == '0' { Some(0) } else if c == '1' { Some(1) } else if c == '2' { Some(2) }
    else if c == '3' { Some(3) } else if c == '4' { Some(4) } else if c == '5' { Some(5) }
    else if c == '6' { Some(6) } else if c == '7' { Some(7) } else if c == '8' { Some(8) }
    else if c == '9' { Some(9) } else if c == 'a' { Some(10) } else if c == 'b' { Some(11) }
    else if c == 'c' { Some(12) } else if c == 'd' { Some(13) } else if c == 'e' { Some(14) }
    else if c == 'f' { Some(15) } else { None }
}

/// Whether `c` is a decimal digit.
fn digit_check(c: char) -> (r: bool)
    ensures
        r == is_digit(c),
{
    c == '0' || c == '1' || c == '2' || c == '3' || c == '4' || c == '5' || c == '6' || c == '7'
        || c == '8' || c == '9'
}

/// The value of a decimal digit character.
fn digit_val_of(c: char) -> (r: u64)
    requires
        is_digit(c),
    ensures
        r == digit_val_c(c),
{
    if c == '0' { 0 } else if c == '1' { 1 } else if c == '2' { 2 } else if c == '3' { 3 }
    else if c == '4' { 4 } else if c == '5' { 5 } else if c == '6' { 6 } else if c == '7' { 7 }
    else if c == '8' { 8 } else { 9 }
}

/// The magnitude of an integer.
pub open spec fn mag(n: i64) -> nat {
    if n < 0 { (-(n as int)) as nat } else { n as nat }
}

/// What it means for the text at `pos` to hold the value `v`: the encoding
/// of `v` stands there, and the text does not go on with further digits
/// (which would make a longer number).
pub open spec fn parse_target(s: Seq<char>, pos: int, v: JsonV) -> bool {
    &&& 0 <= pos
    &&& pos + encoded(v).len() <= s.len()
    &&& s.subrange(pos, pos + encoded(v).len()) == encoded(v)
    &&& (pos + encoded(v).len() == s.len() || !(v is Num && is_digit(
        s[pos + encoded(v).len()],
    )))
}

/// What it means for the text at `pos` to hold the string body `t`,
/// closed by a quote.
pub open spec fn str_body_target(s: Seq<char>, pos: int, t: Seq<char>) -> bool {
    &&& 0 <= pos
    &&& pos + esc_str(t).len() + 1 <= s.len()
    &&& s.subrange(pos, pos + esc_str(t).len()) == esc_str(t)
    &&& s[pos + esc_str(t).len()] == '"'
}

/// Reads one escape sequence starting at the backslash at `pos`.
/// Whichever character's escape stands there, that character comes back,
/// with the escape's width.
#[verifier::rlimit(50)]
fn parse_escape(s: &Vec<char>, pos: usize) -> (r: Option<(char, usize)>)
    requires
        pos < s@.len(),
        s@[pos as int] == '\\',
    ensures
        (match r {
            Some((u, w)) => 2 <= w && pos + w <= s@.len(),
            None => true,
        }),
        forall|c0: char|
            (esc_char(c0)[0] == '\\' && pos + esc_char(c0).len() <= s@.len() && s@.subrange(
                pos as int,
                pos + esc_char(c0).len(),
            ) == esc_char(c0)) ==> r == Some((c0, esc_char(c0).len() as usize)),
{
    if s.len() - pos < 2 {
        proof {
            assert forall|c0: char|
                (esc_char(c0)[0] == '\\' && pos + esc_char(c0).len() <= s@.len() && s@.subrange(
                    pos as int,
                    pos + esc_char(c0).len(),
                ) == esc_char(c0)) implies false by {
                lemma_esc_char(c0);
            }
        }
        return None;
    }
    let e = s[pos + 1];
    proof {
        assert forall|c0: char|
            (esc_char(c0)[0] == '\\' && pos + esc_char(c0).len() <= s@.len() && s@.subrange(
                pos as int,
                pos + esc_char(c0).len(),
            ) == esc_char(c0)) implies esc_char(c0)[1] == e by {
            lemma_esc_char(c0);
            lemma_prefix_index(s@, pos as int, esc_char(c0), 1);
        }
    }
    if e == 'n' {
        proof {
            assert forall|c0: char|
                (esc_char(c0)[0] == '\\' && pos + esc_char(c0).len() <= s@.len() && s@.subrange(
                    pos as int,
                    pos + esc_char(c0).len(),
                ) == esc_char(c0)) implies c0 == '\n' && esc_char(c0).len() == 2 by {
                lemma_esc_char(c0);
            }
        }
        Some(('\n', 2))
    } else if e == 't' {
        proof {
            assert forall|c0: char|
                (esc_char(c0)[0] == '\\' && pos + esc_char(c0).len() <= s@.len() && s@.subrange(
                    pos as int,
                    pos + esc_char(c0).len(),
                ) == esc_char(c0)) implies c0 == '\t' && esc_char(c0).len() == 2 by {
                lemma_esc_char(c0);
            }
        }
        Some(('\t', 2))
    } else if e == 'r' {
        proof {
            assert forall|c0: char|
                (esc_char(c0)[0] == '\\' && pos + esc_char(c0).len() <= s@.len() && s@.subrange(
                    pos as int,
                    pos + esc_char(c0).len(),
                ) == esc_char(c0)) implies c0 == '\r' && esc_char(c0).len() == 2 by {
                lemma_esc_char(c0);
            }
        }
        Some(('\r', 2))
    } else if e == '"' {
        proof {
            assert forall|c0: char|
                (esc_char(c0)[0] == '\\' && pos + esc_char(c0).len() <= s@.len() && s@.subrange(
                    pos as int,
                    pos + esc_char(c0).len(),
                ) == esc_char(c0)) implies c0 == '"' && esc_char(c0).len() == 2 by {
                lemma_esc_char(c0);
            }
        }
        Some(('"', 2))
    } else if e == '\\' {
        proof {
            assert forall|c0: char|
                (esc_char(c0)[0] == '\\' && pos + esc_char(c0).len() <= s@.len() && s@.subrange(
                    pos as int,
                    pos + esc_char(c0).len(),
                ) == esc_char(c0)) implies c0 == '\\' && esc_char(c0).len() == 2 by {
                lemma_esc_char(c0);
            }
        }
        Some(('\\', 2))
    } else if e == 'u' {
        proof {
            assert forall|c0: char|
                (esc_char(c0)[0] == '\\' && pos + esc_char(c0).len() <= s@.len() && s@.subrange(
                    pos as int,
                    pos + esc_char(c0).len(),
                ) == esc_char(c0)) implies ((c0 as u32) < 32 && esc_char(c0).len() == 6 && pos + 6
                <= s@.len() && s@[pos + 2] == '0' && s@[pos + 3] == '0' && s@[pos + 4] == hex_char(
                ((c0 as u32) / 16) as nat,
            ) && s@[pos + 5] == hex_char(((c0 as u32) % 16) as nat)) by {
                lemma_esc_char(c0);
                lemma_prefix_index(s@, pos as int, esc_char(c0), 2);
                lemma_prefix_index(s@, pos as int, esc_char(c0), 3);
                lemma_prefix_index(s@, pos as int, esc_char(c0), 4);
                lemma_prefix_index(s@, pos as int, esc_char(c0), 5);
            }
        }
        if s.len() - pos < 6 {
            return None;
        }
        if !(s[pos + 2] == '0' && s[pos + 3] == '0') {
            return None;
        }
        let h1 = hex_digit(s[pos + 4]);
        let h2 = hex_digit(s[pos + 5]);
        match (h1, h2) {
            (Some(a), Some(b)) => {
                let code: u32 = a * 16 + b;
                if code >= 32 {
                    return None;
                }
                let u = (code as u8) as char;
                proof {
                    assert forall|c0: char|
                        (esc_char(c0)[0] == '\\' && pos + esc_char(c0).len() <= s@.len()
                            && s@.subrange(pos as int, pos + esc_char(c0).len()) == esc_char(
                            c0,
                        )) implies u == c0 by {
                        let hi = ((c0 as u32) / 16) as nat;
                        let lo = ((c0 as u32) % 16) as nat;
                        lemma_esc_char(c0);
                        lemma_prefix_index(s@, pos as int, esc_char(c0), 4);
                        lemma_prefix_index(s@, pos as int, esc_char(c0), 5);
                        assert(s@[pos + 4] == hex_char(hi));
                        assert(s@[pos + 5] == hex_char(lo));
                        assert(hi < 16 && lo < 16);
                        assert(a == hi && b == lo);
                        assert((c0 as u32) / 16 * 16 + (c0 as u32) % 16 == (c0 as u32))
                            by (nonlinear_arith);
                        assert(code == c0 as u32);
                        assert(u as u32 == code);
                        vstd::utf8::char_u32_cast(c0, code);
                        vstd::utf8::char_u32_cast(u, code);
                        assert(u == c0);
                    }
                }
                Some((u, 6))
            },
            _ => None,
        }
    } else {
        proof {
            assert forall|c0: char|
                (esc_char(c0)[0] == '\\' && pos + esc_char(c0).len() <= s@.len() && s@.subrange(
                    pos as int,
                    pos + esc_char(c0).len(),
                ) == esc_char(c0)) implies false by {
                lemma_esc_char(c0);
            }
        }
        None
    }
}

/// Reads a string body up to its closing quote, unescaping as it goes.
/// Whatever string body stands at `pos`, it is read back exactly.
fn parse_str_body(s: &Vec<char>, pos: usize, acc: Vec<char>) -> (r: Option<(Vec<char>, usize)>)
    requires
        pos <= s@.len(),
    ensures
        (match r {
            Some((res, end)) => pos < end <= s@.len(),
            None => true,
        }),
        forall|t: Seq<char>| str_body_target(s@, pos as int, t) ==> (match r {
            Some((res, end)) => res@ == acc@ + t && end == pos + esc_str(t).len() + 1,
            None => false,
        }),
    decreases s@.len() - pos,
{
    if pos >= s.len() {
        return None;
    }
    let c = s[pos];
    if c == '"' {
        proof {
            assert forall|t: Seq<char>| str_body_target(s@, pos as int, t) implies t.len() == 0 by {
                if t.len() > 0 {
                    lemma_esc_char(t[0]);
                    assert(esc_str(t) == esc_char(t[0]) + esc_str(t.skip(1)));
                    lemma_prefix_index(s@, pos as int, esc_str(t), 0);
                    assert(s@[pos as int] == esc_char(t[0])[0]);
                }
            }
            assert(forall|t: Seq<char>|
                str_body_target(s@, pos as int, t) && t.len() == 0 ==> acc@ + t =~= acc@);
        }
        return Some((acc, pos + 1));
    }
    if c == '\\' {
        match parse_escape(s, pos) {
            None => {
                proof {
                    assert forall|t: Seq<char>|
                        str_body_target(s@, pos as int, t) implies false by {
                        str_target_head(s@, pos as int, t);
                        lemma_esc_char(t[0]);
                        assert(esc_char(t[0])[0] == s@[pos as int]);
                    }
                }
                return None;
            },
            Some((u, w)) => {
                let mut acc2 = acc;
                acc2.push(u);
                let ghost acc2v = acc2@;
                let r = parse_str_body(s, pos + w, acc2);
                proof {
                    assert forall|t: Seq<char>|
                        str_body_target(s@, pos as int, t) implies (match r {
                        Some((res, end)) => res@ == acc@ + t && end == pos + esc_str(t).len() + 1,
                        None => false,
                    }) by {
                        str_target_head(s@, pos as int, t);
                        let c0 = t[0];
                        lemma_esc_char(c0);
                        assert(esc_char(c0)[0] == s@[pos as int]);
                        assert(u == c0 && w == esc_char(c0).len());
                        assert(str_body_target(s@, pos + w as int, t.skip(1)));
                        assert(acc2v + t.skip(1) =~= acc@ + t);
                        assert(esc_str(t).len() == w + esc_str(t.skip(1)).len());
                    }
                }
                return r;
            },
        }
    }
    // a plain character
    let mut acc2 = acc;
    acc2.push(c);
    let ghost acc2v = acc2@;
    let r = parse_str_body(s, pos + 1, acc2);
    proof {
        assert forall|t: Seq<char>| str_body_target(s@, pos as int, t) implies (match r {
            Some((res, end)) => res@ == acc@ + t && end == pos + esc_str(t).len() + 1,
            None => false,
        }) by {
            str_target_head(s@, pos as int, t);
            let c0 = t[0];
            lemma_esc_char(c0);
            assert(esc_char(c0) == seq![c0]);
            assert(c0 == c);
            assert(str_body_target(s@, pos + 1 as int, t.skip(1)));
            assert(acc2v + t.skip(1) =~= acc@ + t);
        }
    }
    r
}

/// From a string-body target whose first text character is not a quote:
/// the body is not empty, its first character's escape is the text here,
/// and the rest of the body stands right after it.
proof fn str_target_head(s: Seq<char>, pos: int, t: Seq<char>)
    requires
        str_body_target(s, pos, t),
        pos < s.len(),
        s[pos] != '"',
    ensures
        t.len() >= 1,
        ({
            let e = esc_char(t[0]);
            &&& pos + e.len() <= s.len()
            &&& s.subrange(pos, pos + e.len()) == e
            &&& forall|i: int| 0 <= i < e.len() ==> s[pos + i] == e[i]
            &&& str_body_target(s, pos + e.len(), t.skip(1))
            &&& esc_str(t).len() == e.len() + esc_str(t.skip(1)).len()
        }),
{
    if t.len() == 0 {
        assert(s[pos] == '"');
    }
    lemma_esc_char(t[0]);
    let e = esc_char(t[0]);
    let rest = esc_str(t.skip(1));
    assert(esc_str(t) == e + rest);
    lemma_prefix_split(s, pos, e, rest);
    assert forall|i: int| 0 <= i < e.len() implies s[pos + i] == e[i] by {
        lemma_prefix_index(s, pos, e, i);
    }
}

/// From a number target: where its digits stand and how they end.
proof fn num_target_head(s: Seq<char>, pos: int, n: i64)
    requires
        parse_target(s, pos, JsonV::Num(n)),
    ensures
        pos < s.len(),
        (s[pos] == '-') == (n < 0),
        n >= 0 ==> is_digit(s[pos]),
        ({
            let dstart = if n < 0 { pos + 1 } else { pos };
            let dd = dec_digits(mag(n));
            &&& dstart + dd.len() <= s.len()
            &&& s.subrange(dstart, dstart + dd.len()) == dd
            &&& dd.len() >= 1
            &&& is_digit(s[dstart])
            &&& forall|k: int| dstart <= k < dstart + dd.len() ==> is_digit(s[k])
            &&& (dstart + dd.len() == s.len() || !is_digit(s[dstart + dd.len()]))
            &&& digit_val(dd) == mag(n)
            &&& num_chars(n).len() == (if n < 0 { 1int } else { 0int }) + dd.len()
        }),
{
    lemma_num_chars(n);
    lemma_dec_digits(mag(n));
    let dd = dec_digits(mag(n));
    if n < 0 {
        assert(encoded(JsonV::Num(n)) == seq!['-'] + dd);
        lemma_prefix_split(s, pos, seq!['-'], dd);
        lemma_prefix_index(s, pos, seq!['-'] + dd, 0);
        assert(s[pos] == '-');
    } else {
        assert(encoded(JsonV::Num(n)) == dd);
        lemma_prefix_index(s, pos, dd, 0);
        assert(is_digit(s[pos]));
    }
    let dstart: int = if n < 0 { pos + 1 } else { pos };
    assert forall|k: int| dstart <= k < dstart + dd.len() implies is_digit(s[k]) by {
        lemma_prefix_index(s, dstart, dd, k - dstart);
    }
}

/// Reads a number. Whatever number stands at `pos` (followed by no further
/// digit), that number comes back.
#[verifier::loop_isolation(false)]
fn parse_number(s: &Vec<char>, pos: usize) -> (r: Option<(Json, usize)>)
    requires
        pos < s@.len(),
    ensures
        (match r {
            Some((j, end)) => pos < end <= s@.len(),
            None => true,
        }),
        forall|n: i64| parse_target(s@, pos as int, JsonV::Num(n)) ==> (match r {
            Some((j, end)) => j@ == JsonV::Num(n) && end == pos + num_chars(n).len(),
            None => false,
        }),
{
    let slen = s.len();
    let neg = s[pos] == '-';
    let start: usize = if neg { pos + 1 } else { pos };
    proof {
        assert forall|n: i64| parse_target(s@, pos as int, JsonV::Num(n)) implies neg == (n < 0)
            && start == (if n < 0 { pos + 1 } else { pos as int }) by {
            num_target_head(s@, pos as int, n);
        }
    }
    if start >= s.len() || !digit_check(s[start]) {
        proof {
            assert forall|n: i64| parse_target(s@, pos as int, JsonV::Num(n)) implies false by {
                num_target_head(s@, pos as int, n);
            }
        }
        return None;
    }
    let mut i: usize = start;
    let mut val: u128 = 0;
    proof {
        assert(s@.subrange(start as int, start as int) =~= Seq::<char>::empty());
    }
    while i < s.len() && digit_check(s[i])
        invariant
            start <= i <= s@.len(),
            val == digit_val(s@.subrange(start as int, i as int)),
            val <= u64::MAX,
            forall|k: int| start <= k < i ==> is_digit(s@[k]),
            forall|n: i64|
                parse_target(s@, pos as int, JsonV::Num(n)) ==> i <= start + dec_digits(
                    mag(n),
                ).len(),
        decreases s@.len() - i,
    {
        let d = digit_val_of(s[i]);
        let next: u128 = val * 10 + (d as u128);
        proof {
            assert(s@.subrange(start as int, i + 1 as int).drop_last() =~= s@.subrange(
                start as int,
                i as int,
            ));
            assert(s@.subrange(start as int, i + 1 as int).last() == s@[i as int]);
            assert(next == digit_val(s@.subrange(start as int, i + 1 as int)));
            assert forall|n: i64| parse_target(s@, pos as int, JsonV::Num(n)) implies i + 1 <= start
                + dec_digits(mag(n)).len() && next <= mag(n) by {
                num_target_head(s@, pos as int, n);
                let dd = dec_digits(mag(n));
                let runend = start + dd.len();
                // the run cannot have ended yet: the character here is a digit
                assert(i < runend);
                let run = s@.subrange(start as int, runend as int);
                assert(run =~= dd);
                lemma_digit_val_prefix(run, i + 1 - start);
                assert(run.subrange(0, i + 1 - start) =~= s@.subrange(start as int, i + 1 as int));
            }
        }
        if next > (u64::MAX as u128) {
            proof {
                assert forall|n: i64|
                    parse_target(s@, pos as int, JsonV::Num(n)) implies false by {
                    assert(next <= mag(n));
                    assert(mag(n) <= 9223372036854775808nat);
                }
            }
            return None;
        }
        val = next;
        i += 1;
    }
    proof {
        assert forall|n: i64| parse_target(s@, pos as int, JsonV::Num(n)) implies i == start
            + dec_digits(mag(n)).len() && val == mag(n) by {
            num_target_head(s@, pos as int, n);
            let dd = dec_digits(mag(n));
            let runend = start + dd.len();
            if i < runend {
                lemma_prefix_index(s@, start as int, dd, i - start);
                assert(is_digit(s@[i as int]));
                assert(false);
            }
            assert(s@.subrange(start as int, i as int) =~= dd);
        }
    }
    if neg {
        if val > 9223372036854775808u128 {
            proof {
                assert forall|n: i64|
                    parse_target(s@, pos as int, JsonV::Num(n)) implies false by {
                    num_target_head(s@, pos as int, n);
                }
            }
            return None;
        }
        let jn: i64 = if val == 9223372036854775808u128 {
            i64::MIN
        } else {
            -((val as u64) as i64)
        };
        proof {
            assert forall|n: i64| parse_target(s@, pos as int, JsonV::Num(n)) implies jn == n && i
                == pos + num_chars(n).len() by {
                num_target_head(s@, pos as int, n);
            }
        }
        Some((Json::Num(jn), i))
    } else {
        if val > (i64::MAX as u128) {
            proof {
                assert forall|n: i64|
                    parse_target(s@, pos as int, JsonV::Num(n)) implies false by {
                    num_target_head(s@, pos as int, n);
                }
            }
            return None;
        }
        let jn: i64 = (val as u64) as i64;
        proof {
            assert forall|n: i64| parse_target(s@, pos as int, JsonV::Num(n)) implies jn == n && i
                == pos + num_chars(n).len() by {
                num_target_head(s@, pos as int, n);
            }
        }
        Some((Json::Num(jn), i))
    }
}

/// What it means for the text at `pos` to hold the elements `es` of an
/// array, closed by a bracket.
pub open spec fn elems_target(s: Seq<char>, pos: int, es: Seq<JsonV>) -> bool {
    &&& es.len() >= 1
    &&& 0 <= pos
    &&& pos + encoded_elems(es).len() + 1 <= s.len()
    &&& s.subrange(pos, pos + encoded_elems(es).len()) == encoded_elems(es)
    &&& s[pos + encoded_elems(es).len()] == ']'
}

/// What it means for the text at `pos` to hold the members `ms` of an
/// object, closed by a brace.
pub open spec fn members_target(s: Seq<char>, pos: int, ms: Seq<(Seq<char>, JsonV)>) -> bool {
    &&& ms.len() >= 1
    &&& 0 <= pos
    &&& pos + encoded_members(ms).len() + 1 <= s.len()
    &&& s.subrange(pos, pos + encoded_members(ms).len()) == encoded_members(ms)
    &&& s[pos + encoded_members(ms).len()] == '}'
}

/// From an element-list target: its first element is a value target here,
/// followed by a comma and the rest, or directly by the closing bracket.
proof fn elems_target_head(s: Seq<char>, pos: int, es: Seq<JsonV>)
    requires
        elems_target(s, pos, es),
    ensures
        parse_target(s, pos, es[0]),
        es.len() == 1 ==> s[pos + encoded(es[0]).len()] == ']' && encoded_elems(es).len()
            == encoded(es[0]).len(),
        es.len() >= 2 ==> s[pos + encoded(es[0]).len()] == ',' && elems_target(
            s,
            pos + encoded(es[0]).len() + 1,
            es.skip(1),
        ) && encoded_elems(es).len() == encoded(es[0]).len() + 1 + encoded_elems(
            es.skip(1),
        ).len(),
{
    lemma_encoded_first(es[0]);
    if es.len() == 1 {
        assert(encoded_elems(es) == encoded(es[0]));
    } else {
        let e0 = encoded(es[0]);
        let rest = seq![','] + encoded_elems(es.skip(1));
        assert(encoded_elems(es) == e0 + seq![','] + encoded_elems(es.skip(1)));
        assert(e0 + seq![','] + encoded_elems(es.skip(1)) =~= e0 + rest);
        lemma_prefix_split(s, pos, e0, rest);
        lemma_prefix_index(s, pos + e0.len(), rest, 0);
        let tail = encoded_elems(es.skip(1));
        assert(rest == seq![','] + tail);
        lemma_prefix_split(s, pos + e0.len(), seq![','], tail);
        // the character after the first element is a comma, not a digit
        assert(s[pos + e0.len()] == ',');
        assert(parse_target(s, pos, es[0]));
        assert(elems_target(s, pos + e0.len() + 1, es.skip(1)));
    }
}

/// From a member-list target: its first member's key, colon and value
/// stand here, followed by a comma and the rest, or by the closing brace.
proof fn members_target_head(s: Seq<char>, pos: int, ms: Seq<(Seq<char>, JsonV)>)
    requires
        members_target(s, pos, ms),
    ensures
        pos < s.len(),
        s[pos] == '"',
        str_body_target(s, pos + 1, ms[0].0),
        ({
            let colon = pos + 1 + esc_str(ms[0].0).len() + 1;
            let vstart = colon + 1;
            let vend = vstart + encoded(ms[0].1).len();
            &&& colon < s.len()
            &&& s[colon] == ':'
            &&& parse_target(s, vstart, ms[0].1)
            &&& (ms.len() == 1 ==> s[vend] == '}' && encoded_members(ms).len() == vend - pos)
            &&& (ms.len() >= 2 ==> s[vend] == ',' && members_target(s, vend + 1, ms.skip(1))
                && encoded_members(ms).len() == (vend - pos) + 1 + encoded_members(
                ms.skip(1),
            ).len())
        }),
{
    let k = ms[0].0;
    let v = ms[0].1;
    let m0 = encoded_member(ms[0]);
    assert(m0 == seq!['"'] + esc_str(k) + seq!['"', ':'] + encoded(v));
    let after = if ms.len() == 1 {
        Seq::<char>::empty()
    } else {
        seq![','] + encoded_members(ms.skip(1))
    };
    if ms.len() == 1 {
        assert(encoded_members(ms) == m0);
        assert(encoded_members(ms) =~= m0 + after);
    } else {
        assert(encoded_members(ms) == m0 + seq![','] + encoded_members(ms.skip(1)));
        assert(encoded_members(ms) =~= m0 + after);
    }
    lemma_prefix_split(s, pos, m0, after);
    // split the member itself: quote, key body, quote-colon, value
    let q: Seq<char> = seq!['"'];
    let qc: Seq<char> = seq!['"', ':'];
    assert(m0 =~= q + (esc_str(k) + qc + encoded(v)));
    lemma_prefix_split(s, pos, q, esc_str(k) + qc + encoded(v));
    lemma_prefix_index(s, pos, q, 0);
    let p1 = pos + 1;
    assert(esc_str(k) + qc + encoded(v) =~= esc_str(k) + (qc + encoded(v)));
    lemma_prefix_split(s, p1, esc_str(k), qc + encoded(v));
    let p2 = p1 + esc_str(k).len();
    lemma_prefix_split(s, p2, qc, encoded(v));
    lemma_prefix_index(s, p2, qc, 0);
    lemma_prefix_index(s, p2, qc, 1);
    assert(s[p2] == '"');
    assert(s[p2 + 1] == ':');
    assert(str_body_target(s, p1, k));
    let vstart = p2 + 2;
    let vend = vstart + encoded(v).len();
    lemma_encoded_first(v);
    if ms.len() == 1 {
        assert(s[vend] == '}');
        assert(parse_target(s, vstart, v));
    } else {
        lemma_prefix_index(s, pos + m0.len(), after, 0);
        assert(s[vend] == ',');
        assert(parse_target(s, vstart, v));
        let tail = encoded_members(ms.skip(1));
        lemma_prefix_split(s, pos + m0.len(), seq![','], tail);
        assert(members_target(s, vend + 1, ms.skip(1)));
    }
}

/// Reads one JSON value. Whatever value stands at `pos` (not continued by
/// further digits), that value is read back unchanged.
#[verifier::rlimit(100)]
fn parse_value(s: &Vec<char>, pos: usize) -> (r: Option<(Json, usize)>)
    requires
        pos <= s@.len(),
    ensures
        (match r {
            Some((j, end)) => pos < end <= s@.len(),
            None => true,
        }),
        forall|v: JsonV| parse_target(s@, pos as int, v) ==> (match r {
            Some((j, end)) => j@ == v && end == pos + encoded(v).len(),
            None => false,
        }),
    decreases s@.len() - pos, 0int,
{
    let slen = s.len();
    if pos >= slen {
        proof {
            assert forall|v: JsonV| parse_target(s@, pos as int, v) implies false by {
                lemma_encoded_first(v);
            }
        }
        return None;
    }
    let c = s[pos];
    proof {
        assert forall|v: JsonV| parse_target(s@, pos as int, v) implies s@[pos as int] == encoded(
            v,
        )[0] by {
            lemma_encoded_first(v);
            lemma_prefix_index(s@, pos as int, encoded(v), 0);
        }
    }
    if c == 'n' {
        if slen - pos >= 4 && s[pos + 1] == 'u' && s[pos + 2] == 'l' && s[pos + 3] == 'l' {
            proof {
                assert forall|v: JsonV| parse_target(s@, pos as int, v) implies v == JsonV::Null
                    && encoded(v).len() == 4 by {
                    lemma_encoded_first(v);
                }
            }
            Some((Json::Null, pos + 4))
        } else {
            proof {
                assert forall|v: JsonV| parse_target(s@, pos as int, v) implies false by {
                    lemma_encoded_first(v);
                    assert(v == JsonV::Null);
                    lemma_prefix_index(s@, pos as int, encoded(v), 1);
                    lemma_prefix_index(s@, pos as int, encoded(v), 2);
                    lemma_prefix_index(s@, pos as int, encoded(v), 3);
                }
            }
            None
        }
    } else if c == 't' {
        if slen - pos >= 4 && s[pos + 1] == 'r' && s[pos + 2] == 'u' && s[pos + 3] == 'e' {
            proof {
                assert forall|v: JsonV| parse_target(s@, pos as int, v) implies v == JsonV::Bool(
                    true,
                ) && encoded(v).len() == 4 by {
                    lemma_encoded_first(v);
                }
            }
            Some((Json::Bool(true), pos + 4))
        } else {
            proof {
                assert forall|v: JsonV| parse_target(s@, pos as int, v) implies false by {
                    lemma_encoded_first(v);
                    assert(v == JsonV::Bool(true));
                    lemma_prefix_index(s@, pos as int, encoded(v), 1);
                    lemma_prefix_index(s@, pos as int, encoded(v), 2);
                    lemma_prefix_index(s@, pos as int, encoded(v), 3);
                }
            }
            None
        }
    } else if c == 'f' {
        if slen - pos >= 5 && s[pos + 1] == 'a' && s[pos + 2] == 'l' && s[pos + 3] == 's' && s[pos
            + 4] == 'e' {
            proof {
                assert forall|v: JsonV| parse_target(s@, pos as int, v) implies v == JsonV::Bool(
                    false,
                ) && encoded(v).len() == 5 by {
                    lemma_encoded_first(v);
                }
            }
            Some((Json::Bool(false), pos + 5))
        } else {
            proof {
                assert forall|v: JsonV| parse_target(s@, pos as int, v) implies false by {
                    lemma_encoded_first(v);
                    assert(v == JsonV::Bool(false));
                    lemma_prefix_index(s@, pos as int, encoded(v), 1);
                    lemma_prefix_index(s@, pos as int, encoded(v), 2);
                    lemma_prefix_index(s@, pos as int, encoded(v), 3);
                    lemma_prefix_index(s@, pos as int, encoded(v), 4);
                }
            }
            None
        }
    } else if c == '"' {
        proof {
            assert forall|v: JsonV| parse_target(s@, pos as int, v) implies (v is Str
                && str_body_target(s@, pos + 1, v->Str_0)) by {
                lemma_encoded_first(v);
                let t = v->Str_0;
                assert(encoded(v) =~= seq!['"'] + (esc_str(t) + seq!['"']));
                lemma_prefix_split(s@, pos as int, seq!['"'], esc_str(t) + seq!['"']);
                lemma_prefix_split(s@, pos + 1, esc_str(t), seq!['"']);
                lemma_prefix_index(s@, pos + 1 + esc_str(t).len(), seq!['"'], 0);
            }
        }
        match parse_str_body(s, pos + 1, Vec::new()) {
            None => {
                proof {
                    assert forall|v: JsonV|
                        parse_target(s@, pos as int, v) implies false by {}
                }
                None
            },
            Some((content, end)) => {
                proof {
                    assert forall|v: JsonV| parse_target(s@, pos as int, v) implies jview(
                        Json::Str(content),
                    ) == v && end == pos + encoded(v).len() by {
                        let t = v->Str_0;
                        assert(content@ == Seq::<char>::empty() + t);
                        assert(Seq::<char>::empty() + t =~= t);
                    }
                }
                Some((Json::Str(content), end))
            },
        }
    } else if c == '[' {
        if pos + 1 < slen && s[pos + 1] == ']' {
            proof {
                assert forall|v: JsonV| parse_target(s@, pos as int, v) implies v == JsonV::Arr(
                    Seq::<JsonV>::empty(),
                ) && encoded(v).len() == 2 by {
                    lemma_encoded_first(v);
                    assert(v is Arr);
                    let a = v->Arr_0;
                    let inner = encoded_elems(a) + seq![']'];
                    assert(encoded(v) =~= seq!['['] + inner);
                    lemma_prefix_split(s@, pos as int, seq!['['], inner);
                    if a.len() > 0 {
                        elems_inner_first(a, inner);
                        lemma_prefix_index(s@, pos + 1, inner, 0);
                        assert(s@[pos + 1] == inner[0]);
                        assert(false);
                    }
                    assert(a =~= Seq::<JsonV>::empty());
                    assert(v == JsonV::Arr(Seq::<JsonV>::empty()));
                    assert(encoded_elems(a) == Seq::<char>::empty());
                    assert(encoded(v) =~= seq!['[', ']']);
                }
                assert(jviews(Seq::<Json>::empty()) == Seq::<JsonV>::empty());
            }
            let items: Vec<Json> = Vec::new();
            Some((Json::Arr(items), pos + 2))
        } else {
            proof {
                assert forall|v: JsonV| parse_target(s@, pos as int, v) implies (v is Arr
                    && v->Arr_0.len() >= 1 && elems_target(s@, pos + 1, v->Arr_0)) by {
                    lemma_encoded_first(v);
                    let a = v->Arr_0;
                    let inner = encoded_elems(a) + seq![']'];
                    assert(encoded(v) =~= seq!['['] + inner);
                    lemma_prefix_split(s@, pos as int, seq!['['], inner);
                    lemma_prefix_split(s@, pos + 1, encoded_elems(a), seq![']']);
                    lemma_prefix_index(s@, pos + 1 + encoded_elems(a).len(), seq![']'], 0);
                    if a.len() == 0 {
                        assert(s@[pos + 1] == ']');
                        assert(pos + 1 < s@.len());
                        assert(false);
                    }
                }
            }
            let acc: Vec<Json> = Vec::new();
            match parse_elems(s, pos + 1, acc) {
                None => {
                    proof {
                        assert forall|v: JsonV|
                            parse_target(s@, pos as int, v) implies false by {}
                    }
                    None
                },
                Some((items, end)) => {
                    proof {
                        assert forall|v: JsonV| parse_target(s@, pos as int, v) implies jview(
                            Json::Arr(items),
                        ) == v && end == pos + encoded(v).len() by {
                            let a = v->Arr_0;
                            assert(jviews(items@) == jviews(Seq::<Json>::empty()) + a);
                            assert(jviews(Seq::<Json>::empty()) + a =~= a);
                        }
                    }
                    Some((Json::Arr(items), end))
                },
            }
        }
    } else if c == '{' {
        if pos + 1 < slen && s[pos + 1] == '}' {
            proof {
                assert forall|v: JsonV| parse_target(s@, pos as int, v) implies v == JsonV::Obj(
                    Seq::<(Seq<char>, JsonV)>::empty(),
                ) && encoded(v).len() == 2 by {
                    lemma_encoded_first(v);
                    assert(v is Obj);
                    let o = v->Obj_0;
                    let inner = encoded_members(o) + seq!['}'];
                    assert(encoded(v) =~= seq!['{'] + inner);
                    lemma_prefix_split(s@, pos as int, seq!['{'], inner);
                    if o.len() > 0 {
                        members_inner_first(o, inner);
                        lemma_prefix_index(s@, pos + 1, inner, 0);
                        assert(s@[pos + 1] == inner[0]);
                        assert(false);
                    }
                    assert(o =~= Seq::<(Seq<char>, JsonV)>::empty());
                    assert(v == JsonV::Obj(Seq::<(Seq<char>, JsonV)>::empty()));
                    assert(encoded_members(o) == Seq::<char>::empty());
                    assert(encoded(v) =~= seq!['{', '}']);
                }
                assert(mviews(Seq::<(Vec<char>, Json)>::empty()) == Seq::<(
                    Seq<char>,
                    JsonV,
                )>::empty());
            }
            let items: Vec<(Vec<char>, Json)> = Vec::new();
            Some((Json::Obj(items), pos + 2))
        } else {
            proof {
                assert forall|v: JsonV| parse_target(s@, pos as int, v) implies (v is Obj
                    && v->Obj_0.len() >= 1 && members_target(s@, pos + 1, v->Obj_0)) by {
                    lemma_encoded_first(v);
                    let o = v->Obj_0;
                    let inner = encoded_members(o) + seq!['}'];
                    assert(encoded(v) =~= seq!['{'] + inner);
                    lemma_prefix_split(s@, pos as int, seq!['{'], inner);
                    lemma_prefix_split(s@, pos + 1, encoded_members(o), seq!['}']);
                    lemma_prefix_index(s@, pos + 1 + encoded_members(o).len(), seq!['}'], 0);
                    if o.len() == 0 {
                        assert(s@[pos + 1] == '}');
                        assert(pos + 1 < s@.len());
                        assert(false);
                    }
                }
            }
            let acc: Vec<(Vec<char>, Json)> = Vec::new();
            match parse_members(s, pos + 1, acc) {
                None => {
                    proof {
                        assert forall|v: JsonV|
                            parse_target(s@, pos as int, v) implies false by {}
                    }
                    None
                },
                Some((items, end)) => {
                    proof {
                        assert forall|v: JsonV| parse_target(s@, pos as int, v) implies jview(
                            Json::Obj(items),
                        ) == v && end == pos + encoded(v).len() by {
                            let o = v->Obj_0;
                            assert(mviews(items@) == mviews(Seq::<(Vec<char>, Json)>::empty()) + o);
                            assert(mviews(Seq::<(Vec<char>, Json)>::empty()) + o =~= o);
                        }
                    }
                    Some((Json::Obj(items), end))
                },
            }
        }
    } else if c == '-' || digit_check(c) {
        proof {
            assert forall|v: JsonV| parse_target(s@, pos as int, v) implies v is Num by {
                lemma_encoded_first(v);
            }
        }
        parse_number(s, pos)
    } else {
        proof {
            assert forall|v: JsonV| parse_target(s@, pos as int, v) implies false by {
                lemma_encoded_first(v);
            }
        }
        None
    }
}

/// The first character inside a non-empty element list is the first
/// character of its first element: not a closing bracket.
proof fn elems_inner_first(a: Seq<JsonV>, inner: Seq<char>)
    requires
        a.len() >= 1,
        inner == encoded_elems(a) + seq![']'],
    ensures
        inner.len() >= 1,
        inner[0] == encoded(a[0])[0],
        inner[0] != ']',
        inner[0] != '}',
{
    lemma_encoded_first(a[0]);
    if a.len() == 1 {
        assert(encoded_elems(a) == encoded(a[0]));
        assert(inner[0] == encoded(a[0])[0]);
    } else {
        assert(encoded_elems(a) == encoded(a[0]) + seq![','] + encoded_elems(a.skip(1)));
        assert(inner[0] == encoded(a[0])[0]);
    }
}

/// The first character inside a non-empty member list is a quote.
proof fn members_inner_first(o: Seq<(Seq<char>, JsonV)>, inner: Seq<char>)
    requires
        o.len() >= 1,
        inner == encoded_members(o) + seq!['}'],
    ensures
        inner.len() >= 1,
        inner[0] == '"',
{
    assert(encoded_member(o[0])[0] == '"');
    if o.len() == 1 {
        assert(encoded_members(o) == encoded_member(o[0]));
        assert(inner[0] == encoded_member(o[0])[0]);
    } else {
        assert(encoded_members(o) == encoded_member(o[0]) + seq![','] + encoded_members(
            o.skip(1),
        ));
        assert(inner[0] == encoded_member(o[0])[0]);
    }
}

/// Reads the elements of an array after the opening bracket, up to and
/// including the closing bracket. Whatever element list stands at `pos`,
/// it is read back exactly, appended to `acc`.
#[verifier::rlimit(100)]
fn parse_elems(s: &Vec<char>, pos: usize, acc: Vec<Json>) -> (r: Option<(Vec<Json>, usize)>)
    requires
        pos <= s@.len(),
    ensures
        (match r {
            Some((items, end)) => pos < end <= s@.len(),
            None => true,
        }),
        forall|es: Seq<JsonV>| elems_target(s@, pos as int, es) ==> (match r {
            Some((items, end)) => jviews(items@) == jviews(acc@) + es && end == pos + encoded_elems(
                es,
            ).len() + 1,
            None => false,
        }),
    decreases s@.len() - pos, 1int,
{
    let ghost accv = acc@;
    match parse_value(s, pos) {
        None => {
            proof {
                assert forall|es: Seq<JsonV>|
                    elems_target(s@, pos as int, es) implies false by {
                    elems_target_head(s@, pos as int, es);
                }
            }
            None
        },
        Some((j, p)) => {
            if p < s.len() && s[p] == ',' {
                let mut acc2 = acc;
                acc2.push(j);
                let ghost acc2v = acc2@;
                let r = parse_elems(s, p + 1, acc2);
                proof {
                    assert forall|es: Seq<JsonV>| elems_target(s@, pos as int, es) implies (match r {
                        Some((items, end)) => jviews(items@) == jviews(accv) + es && end == pos
                            + encoded_elems(es).len() + 1,
                        None => false,
                    }) by {
                        elems_target_head(s@, pos as int, es);
                        assert(parse_target(s@, pos as int, es[0]));
                        assert(j@ == es[0]);
                        assert(p == pos + encoded(es[0]).len());
                        assert(es.len() >= 2) by {
                            if es.len() == 1 {
                                assert(s@[p as int] == ']');
                            }
                        }
                        assert(elems_target(s@, (p + 1) as int, es.skip(1)));
                        assert(match r {
                            Some((items, end)) => jviews(items@) == jviews(acc2v) + es.skip(1)
                                && end == (p + 1) + encoded_elems(es.skip(1)).len() + 1,
                            None => false,
                        });
                        lemma_jviews_push(accv, j);
                        assert(jviews(acc2v) == jviews(accv).push(es[0]));
                        assert(jviews(accv).push(es[0]) + es.skip(1) =~= jviews(accv) + es);
                        assert(encoded_elems(es).len() == encoded(es[0]).len() + 1 + encoded_elems(
                            es.skip(1),
                        ).len());
                    }
                }
                return r;
            } else if p < s.len() && s[p] == ']' {
                let mut acc2 = acc;
                acc2.push(j);
                proof {
                    assert forall|es: Seq<JsonV>| #[trigger]
                    elems_target(s@, pos as int, es) implies (jviews(acc2@) == jviews(acc@) + es
                        && p + 1 == pos + encoded_elems(es).len() + 1) by {
                        elems_target_head(s@, pos as int, es);
                        assert(j@ == es[0] && p == pos + encoded(es[0]).len());
                        assert(es.len() == 1) by {
                            if es.len() >= 2 {
                                assert(s@[p as int] == ',');
                            }
                        }
                        lemma_jviews_push(accv, j);
                        assert(jviews(acc2@) == jviews(accv).push(es[0]));
                        assert(jviews(accv).push(es[0]) =~= jviews(accv) + es);
                        assert(jviews(acc2@) == jviews(acc@) + es);
                        assert(p + 1 == pos + encoded_elems(es).len() + 1);
                    }
                }
                return Some((acc2, p + 1));
            } else {
                proof {
                    assert forall|es: Seq<JsonV>|
                        elems_target(s@, pos as int, es) implies false by {
                        elems_target_head(s@, pos as int, es);
                        assert(j@ == es[0] && p == pos + encoded(es[0]).len());
                        if es.len() == 1 {
                            assert(s@[p as int] == ']');
                            assert(p < s@.len());
                        } else {
                            assert(s@[p as int] == ',');
                            assert(p < s@.len());
                        }
                    }
                }
                return None;
            }
        },
    }
}

/// Reads the members of an object after the opening brace, up to and
/// including the closing brace. Whatever member list stands at `pos`,
/// it is read back exactly, appended to `acc`.
#[verifier::rlimit(100)]
fn parse_members(s: &Vec<char>, pos: usize, acc: Vec<(Vec<char>, Json)>) -> (r: Option<
    (Vec<(Vec<char>, Json)>, usize),
>)
    requires
        pos <= s@.len(),
    ensures
        (match r {
            Some((items, end)) => pos < end <= s@.len(),
            None => true,
        }),
        forall|ms: Seq<(Seq<char>, JsonV)>| members_target(s@, pos as int, ms) ==> (match r {
            Some((items, end)) => mviews(items@) == mviews(acc@) + ms && end == pos
                + encoded_members(ms).len() + 1,
            None => false,
        }),
    decreases s@.len() - pos, 1int,
{
    let ghost accv = acc@;
    let slen = s.len();
    if pos >= slen || !(s[pos] == '"') {
        proof {
            assert forall|ms: Seq<(Seq<char>, JsonV)>|
                members_target(s@, pos as int, ms) implies false by {
                members_target_head(s@, pos as int, ms);
            }
        }
        return None;
    }
    match parse_str_body(s, pos + 1, Vec::new()) {
        None => {
            proof {
                assert forall|ms: Seq<(Seq<char>, JsonV)>|
                    members_target(s@, pos as int, ms) implies false by {
                    members_target_head(s@, pos as int, ms);
                }
            }
            None
        },
        Some((key, kq)) => {
            proof {
                assert forall|ms: Seq<(Seq<char>, JsonV)>|
                    members_target(s@, pos as int, ms) implies (key@ == ms[0].0 && kq == pos + 1
                    + esc_str(ms[0].0).len() + 1) by {
                    members_target_head(s@, pos as int, ms);
                    assert(key@ == Seq::<char>::empty() + ms[0].0);
                    assert(Seq::<char>::empty() + ms[0].0 =~= ms[0].0);
                }
            }
            if kq < slen && s[kq] == ':' {
                match parse_value(s, kq + 1) {
                    None => {
                        proof {
                            assert forall|ms: Seq<(Seq<char>, JsonV)>|
                                members_target(s@, pos as int, ms) implies false by {
                                members_target_head(s@, pos as int, ms);
                            }
                        }
                        None
                    },
                    Some((v, p)) => {
                        if p < slen && s[p] == ',' {
                            let mut acc2 = acc;
                            acc2.push((key, v));
                            let ghost acc2v = acc2@;
                            let r = parse_members(s, p + 1, acc2);
                            proof {
                                assert forall|ms: Seq<(Seq<char>, JsonV)>|
                                    members_target(s@, pos as int, ms) implies (match r {
                                    Some((items, end)) => mviews(items@) == mviews(accv) + ms && end
                                        == pos + encoded_members(ms).len() + 1,
                                    None => false,
                                }) by {
                                    members_target_head(s@, pos as int, ms);
                                    assert(v@ == ms[0].1 && p == kq + 1 + encoded(ms[0].1).len());
                                    assert(ms.len() >= 2) by {
                                        if ms.len() == 1 {
                                            assert(s@[p as int] == '}');
                                        }
                                    }
                                    assert(members_target(s@, p + 1 as int, ms.skip(1)));
                                    lemma_mviews_push(accv, (key, v));
                                    assert(mviews(acc2v) == mviews(accv).push(ms[0]));
                                    assert(mviews(accv).push(ms[0]) + ms.skip(1) =~= mviews(accv)
                                        + ms);
                                }
                            }
                            r
                        } else if p < slen && s[p] == '}' {
                            let mut acc2 = acc;
                            acc2.push((key, v));
                            proof {
                                assert forall|ms: Seq<(Seq<char>, JsonV)>|
                                    members_target(s@, pos as int, ms) implies (mviews(acc2@)
                                    == mviews(accv) + ms && p + 1 == pos + encoded_members(
                                    ms,
                                ).len() + 1) by {
                                    members_target_head(s@, pos as int, ms);
                                    assert(v@ == ms[0].1 && p == kq + 1 + encoded(ms[0].1).len());
                                    assert(ms.len() == 1) by {
                                        if ms.len() >= 2 {
                                            assert(s@[p as int] == ',');
                                        }
                                    }
                                    lemma_mviews_push(accv, (key, v));
                                    assert(mviews(acc2@) == mviews(accv).push(ms[0]));
                                    assert(mviews(accv).push(ms[0]) =~= mviews(accv) + ms);
                                }
                            }
                            Some((acc2, p + 1))
                        } else {
                            proof {
                                assert forall|ms: Seq<(Seq<char>, JsonV)>|
                                    members_target(s@, pos as int, ms) implies false by {
                                    members_target_head(s@, pos as int, ms);
                                    assert(v@ == ms[0].1 && p == kq + 1 + encoded(ms[0].1).len());
                                    if ms.len() == 1 {
                                        assert(s@[p as int] == '}');
                                        assert(p < s@.len());
                                    } else {
                                        assert(s@[p as int] == ',');
                                        assert(p < s@.len());
                                    }
                                }
                            }
                            None
                        }
                    },
                }
            } else {
                proof {
                    assert forall|ms: Seq<(Seq<char>, JsonV)>|
                        members_target(s@, pos as int, ms) implies false by {
                        members_target_head(s@, pos as int, ms);
                    }
                }
                None
            }
        },
    }
}

/// Reads a complete JSON text. Every encoded value is read back unchanged:
/// this is the round-trip law of the codec.
pub fn parse(s: &Vec<char>) -> (r: Option<Json>)
    ensures
        forall|v: JsonV| s@ == encoded(v) ==> (match r {
            Some(j) => j@ == v,
            None => false,
        }),
{
    proof {
        assert forall|v: JsonV| s@ == encoded(v) implies parse_target(s@, 0, v) by {
            assert(s@.subrange(0, encoded(v).len() as int) =~= encoded(v));
        }
    }
    match parse_value(s, 0) {
        Some((j, end)) => {
            if end == s.len() {
                Some(j)
            } else {
                proof {
                    assert forall|v: JsonV| s@ == encoded(v) implies false by {}
                }
                None
            }
        },
        None => None,
    }
}

/// Reads a JSON argument list: the elements if the text encodes an array,
/// and nothing otherwise.
pub fn decode_args(text: &Vec<char>) -> (r: Vec<Json>)
    ensures
        forall|es: Seq<JsonV>| text@ == encoded(JsonV::Arr(es)) ==> jviews(r@) == es,
{
    match parse(text) {
        Some(Json::Arr(items)) => items,
        _ => Vec::new(),
    }
}

} // verus!
