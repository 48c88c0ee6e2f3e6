//! Formatting of native values as Python literals.
//!
//! Integers render as plain decimal digits, text as triple-double-quoted
//! strings (no escaping), lists as bracketed comma-terminated items, and
//! dictionaries as brace-delimited comma-terminated `key:value` pairs in
//! insertion order.

use vstd::prelude::*;
use vstd::string::*;

verus! {

/// The character for one decimal digit.
pub open spec fn digit_char(d: int) -> char {
    if d == 0 {
        '0'
    } else if d == 1 {
        '1'
    } else if d == 2 {
        '2'
    } else if d == 3 {
        '3'
    } else if d == 4 {
        '4'
    } else if d == 5 {
        '5'
    } else if d == 6 {
        '6'
    } else if d == 7 {
        '7'
    } else if d == 8 {
        '8'
    } else {
        '9'
    }
}

/// The decimal digits of `n`, most significant first: no sign, no
/// separators, and no leading zero except for `0` itself.
pub open spec fn dec_digits(n: nat) -> Seq<char>
    decreases n,
{
    if n < 10 {
        seq![digit_char(n as int)]
    } else {
        dec_digits(n / 10) + seq![digit_char((n % 10) as int)]
    }
}

/// The Python literal of a mathematical integer: its decimal digits with a
/// leading `-` exactly when it is negative.
pub open spec fn int_digits(i: int) -> Seq<char> {
    if i < 0 {
        seq!['-'] + dec_digits((-i) as nat)
    } else {
        dec_digits(i as nat)
    }
}

/// The Python literal of a piece of text: the characters wrapped in triple
/// double-quotes, written through verbatim.
pub open spec fn text_literal(s: Seq<char>) -> Seq<char> {
    seq!['"', '"', '"'] + s + seq!['"', '"', '"']
}

/// True exactly of the ten decimal digit characters.
pub open spec fn is_digit_char(c: char) -> bool {
    c == '0' || c == '1' || c == '2' || c == '3' || c == '4' || c == '5' || c == '6' || c == '7'
        || c == '8' || c == '9'
}

/// The numeric value of one decimal digit character.
pub open spec fn char_digit(c: char) -> nat
    recommends
        is_digit_char(c),
{
    if c == '0' {
        0
    } else if c == '1' {
        1
    } else if c == '2' {
        2
    } else if c == '3' {
        3
    } else if c == '4' {
        4
    } else if c == '5' {
        5
    } else if c == '6' {
        6
    } else if c == '7' {
        7
    } else if c == '8' {
        8
    } else {
        9
    }
}

/// The number whose decimal digits, most significant first, are `s`.
pub open spec fn digits_value(s: Seq<char>) -> nat
    decreases s.len(),
{
    if s.len() == 0 {
        0
    } else {
        digits_value(s.drop_last()) * 10 + char_digit(s.last())
    }
}

/// The decimal rendering of a natural number is faithful: it is never
/// empty, consists of digit characters only, starts with `0` exactly for
/// zero itself, and reads back to the number it was made from.
pub proof fn lemma_dec_digits_decimal(n: nat)
    ensures
        dec_digits(n).len() >= 1,
        forall|i: int| 0 <= i < dec_digits(n).len() ==> is_digit_char(#[trigger] dec_digits(n)[i]),
        (dec_digits(n).first() == '0') <==> n == 0,
        digits_value(dec_digits(n)) == n,
    decreases n,
{
    if n < 10 {
        assert(dec_digits(n).drop_last() =~= Seq::<char>::empty());
        assert(dec_digits(n).last() == digit_char(n as int));
        assert(char_digit(digit_char(n as int)) == n);
        assert(digits_value(Seq::<char>::empty()) == 0);
        assert(digits_value(dec_digits(n)) == digits_value(Seq::<char>::empty()) * 10 + char_digit(
            dec_digits(n).last(),
        ));
    } else {
        lemma_dec_digits_decimal(n / 10);
        let prefix = dec_digits(n / 10);
        let whole = dec_digits(n);
        assert(whole.drop_last() =~= prefix);
        assert(whole.last() == digit_char((n % 10) as int));
        assert(whole.first() == prefix.first());
        assert(char_digit(digit_char((n % 10) as int)) == n % 10);
        assert(digits_value(whole) == digits_value(prefix) * 10 + char_digit(whole.last()));
        assert(digits_value(whole) == (n / 10) * 10 + n % 10);
        assert((n / 10) * 10 + n % 10 == n) by {
            vstd::arithmetic::div_mod::lemma_fundamental_div_mod(n as int, 10);
        }
        assert forall|i: int| 0 <= i < whole.len() implies is_digit_char(#[trigger] whole[i]) by {
            if i < prefix.len() {
                assert(whole[i] == prefix[i]);
            }
        }
    }
}

/// The rendering of an integer is its plain decimal digits: a leading `-`
/// exactly when the integer is negative, digit characters everywhere past
/// it, no leading zero except for zero itself, and the digits read back to
/// the integer's magnitude.
pub proof fn lemma_int_digits_decimal(i: int)
    ensures
        int_digits(i).len() >= 1,
        (int_digits(i).first() == '-') <==> i < 0,
        i >= 0 ==> int_digits(i) == dec_digits(i as nat),
        i >= 0 ==> digits_value(int_digits(i)) == i,
        i >= 0 ==> ((int_digits(i).first() == '0') <==> i == 0),
        i < 0 ==> int_digits(i).drop_first() == dec_digits((-i) as nat),
        i < 0 ==> digits_value(int_digits(i).drop_first()) == -i,
        i < 0 ==> int_digits(i).drop_first().first() != '0',
        forall|j: int|
            (if i < 0 {
                1int
            } else {
                0int
            }) <= j < int_digits(i).len() ==> is_digit_char(#[trigger] int_digits(i)[j]),
{
    if i < 0 {
        lemma_dec_digits_decimal((-i) as nat);
        assert(int_digits(i).drop_first() =~= dec_digits((-i) as nat));
        assert forall|j: int| 1 <= j < int_digits(i).len() implies is_digit_char(
            #[trigger] int_digits(i)[j],
        ) by {
            assert(int_digits(i)[j] == dec_digits((-i) as nat)[j - 1]);
        }
    } else {
        lemma_dec_digits_decimal(i as nat);
        assert(!is_digit_char('-'));
    }
}

fn digit_str(d: u8) -> (s: &'static str)
    requires
        d < 10,
    ensures
        s@ == seq![digit_char(d as int)],
{
    let s: &'static str = if d == 0 {
        "0"
    } else if d == 1 {
        "1"
    } else if d == 2 {
        "2"
    } else if d == 3 {
        "3"
    } else if d == 4 {
        "4"
    } else if d == 5 {
        "5"
    } else if d == 6 {
        "6"
    } else if d == 7 {
        "7"
    } else if d == 8 {
        "8"
    } else {
        "9"
    };
    proof {
        reveal_strlit("0");
        reveal_strlit("1");
        reveal_strlit("2");
        reveal_strlit("3");
        reveal_strlit("4");
        reveal_strlit("5");
        reveal_strlit("6");
        reveal_strlit("7");
        reveal_strlit("8");
        reveal_strlit("9");
        assert(s@ =~= seq![digit_char(d as int)]);
    }
    s
}

/// Renders `n` as plain decimal digits.
pub fn render_u128(n: u128) -> (s: String)
    ensures
        s@ == dec_digits(n as nat),
    decreases n,
{
    if n < 10 {
        String::from_str(digit_str(n as u8))
    } else {
        let mut s = render_u128(n / 10);
        s.append(digit_str((n % 10) as u8));
        s
    }
}

/// Renders `n` as plain decimal digits.
pub fn render_u64(n: u64) -> (s: String)
    ensures
        s@ == dec_digits(n as nat),
{
    render_u128(n as u128)
}

/// Renders `i` as decimal digits with a leading `-` when negative.
pub fn render_i128(i: i128) -> (s: String)
    ensures
        s@ == int_digits(i as int),
{
    if i >= 0 {
        render_u128(i as u128)
    } else {
        let magnitude: u128 = if i == i128::MIN {
            170141183460469231731687303715884105728u128
        } else {
            (-i) as u128
        };
        let mut s = String::from_str("-");
        let digits = render_u128(magnitude);
        s.append(digits.as_str());
        proof {
            reveal_strlit("-");
            assert(s@ =~= int_digits(i as int));
        }
        s
    }
}

/// Renders `i` as decimal digits with a leading `-` when negative.
pub fn render_i64(i: i64) -> (s: String)
    ensures
        s@ == int_digits(i as int),
{
    render_i128(i as i128)
}

/// Renders `s` as a triple-double-quoted Python string literal.
pub fn render_text(s: &str) -> (r: String)
    ensures
        r@ == text_literal(s@),
{
    let mut out = String::from_str("\"\"\"");
    out.append(s);
    out.append("\"\"\"");
    proof {
        reveal_strlit("\"\"\"");
        assert(out@ =~= text_literal(s@));
    }
    out
}

/// A value with a Python literal rendering.
pub trait AsPythonLitteral {
    /// The literal text this value renders to.
    spec fn literal(&self) -> Seq<char>;

    /// Renders this value as a Python literal.
    fn to_literal(&self) -> (s: String)
        ensures
            s@ == self.literal(),
    ;
}

impl AsPythonLitteral for u8 {
    open spec fn literal(&self) -> Seq<char> {
        dec_digits(*self as nat)
    }

    fn to_literal(&self) -> (s: String) {
        render_u64(*self as u64)
    }
}

impl AsPythonLitteral for u16 {
    open spec fn literal(&self) -> Seq<char> {
        dec_digits(*self as nat)
    }

    fn to_literal(&self) -> (s: String) {
        render_u64(*self as u64)
    }
}

impl AsPythonLitteral for u32 {
    open spec fn literal(&self) -> Seq<char> {
        dec_digits(*self as nat)
    }

    fn to_literal(&self) -> (s: String) {
        render_u64(*self as u64)
    }
}

impl AsPythonLitteral for u64 {
    open spec fn literal(&self) -> Seq<char> {
        dec_digits(*self as nat)
    }

    fn to_literal(&self) -> (s: String) {
        render_u64(*self)
    }
}

impl AsPythonLitteral for u128 {
    open spec fn literal(&self) -> Seq<char> {
        dec_digits(*self as nat)
    }

    fn to_literal(&self) -> (s: String) {
        render_u128(*self)
    }
}

impl AsPythonLitteral for usize {
    open spec fn literal(&self) -> Seq<char> {
        dec_digits(*self as nat)
    }

    fn to_literal(&self) -> (s: String) {
        render_u64(*self as u64)
    }
}

impl AsPythonLitteral for i8 {
    open spec fn literal(&self) -> Seq<char> {
        int_digits(*self as int)
    }

    fn to_literal(&self) -> (s: String) {
        render_i64(*self as i64)
    }
}

impl AsPythonLitteral for i16 {
    open spec fn literal(&self) -> Seq<char> {
        int_digits(*self as int)
    }

    fn to_literal(&self) -> (s: String) {
        render_i64(*self as i64)
    }
}

impl AsPythonLitteral for i32 {
    open spec fn literal(&self) -> Seq<char> {
        int_digits(*self as int)
    }

    fn to_literal(&self) -> (s: String) {
        render_i64(*self as i64)
    }
}

impl AsPythonLitteral for i64 {
    open spec fn literal(&self) -> Seq<char> {
        int_digits(*self as int)
    }

    fn to_literal(&self) -> (s: String) {
        render_i64(*self)
    }
}

impl AsPythonLitteral for i128 {
    open spec fn literal(&self) -> Seq<char> {
        int_digits(*self as int)
    }

    fn to_literal(&self) -> (s: String) {
        render_i128(*self)
    }
}

impl AsPythonLitteral for isize {
    open spec fn literal(&self) -> Seq<char> {
        int_digits(*self as int)
    }

    fn to_literal(&self) -> (s: String) {
        render_i64(*self as i64)
    }
}

impl AsPythonLitteral for str {
    open spec fn literal(&self) -> Seq<char> {
        text_literal(self@)
    }

    fn to_literal(&self) -> (s: String) {
        render_text(self)
    }
}

impl AsPythonLitteral for String {
    open spec fn literal(&self) -> Seq<char> {
        text_literal(self@)
    }

    fn to_literal(&self) -> (s: String) {
        render_text(self.as_str())
    }
}

/// A tagged value covering every shape the formatter accepts: integers,
/// text, ordered lists of values, and text-keyed dictionaries in insertion
/// order.
pub enum Value {
    /// A signed integer.
    Int(i64),
    /// An unsigned integer.
    UInt(u64),
    /// A piece of text.
    Text(String),
    /// An ordered list of values.
    List(Vec<Value>),
    /// A dictionary from text keys to values, in insertion order.
    Dict(Vec<(String, Value)>),
}

/// The Python literal a `Value` renders to.
pub open spec fn value_literal(v: Value) -> Seq<char>
    decreases v,
{
    match v {
        Value::Int(i) => int_digits(i as int),
        Value::UInt(u) => dec_digits(u as nat),
        Value::Text(t) => text_literal(t@),
        Value::List(items) => seq!['['] + list_body(items@) + seq![']'],
        Value::Dict(pairs) => seq!['{'] + dict_body(pairs@) + seq!['}'],
    }
}

/// The inside of a list literal: each element's rendering followed by a
/// comma, in order (so the final element carries a trailing comma).
pub open spec fn list_body(items: Seq<Value>) -> Seq<char>
    decreases items,
{
    if items.len() == 0 {
        Seq::empty()
    } else {
        list_body(items.drop_last()) + value_literal(items.last()) + seq![',']
    }
}

/// The inside of a dictionary literal: each `key:value` pair followed by a
/// comma, in order, with the key rendered as a text literal.
pub open spec fn dict_body(pairs: Seq<(String, Value)>) -> Seq<char>
    decreases pairs,
{
    if pairs.len() == 0 {
        Seq::empty()
    } else {
        dict_body(pairs.drop_last()) + text_literal(pairs.last().0@) + seq![':'] + value_literal(
            pairs.last().1,
        ) + seq![',']
    }
}

fn render_items(items: &Vec<Value>, upto: usize) -> (s: String)
    requires
        upto <= items.len(),
    ensures
        s@ == list_body(items@.take(upto as int)),
    decreases items@, upto,
{
    if upto == 0 {
        let s = String::new();
        proof {
            assert(items@.take(0) =~= Seq::<Value>::empty());
        }
        s
    } else {
        let mut s = render_items(items, upto - 1);
        let lit = items[upto - 1].render();
        s.append(lit.as_str());
        s.append(",");
        proof {
            reveal_strlit(",");
            assert(items@.take(upto as int).drop_last() =~= items@.take(upto - 1));
            assert(items@.take(upto as int).last() == items@[upto - 1]);
            assert(s@ =~= list_body(items@.take(upto as int)));
        }
        s
    }
}

fn render_pairs(pairs: &Vec<(String, Value)>, upto: usize) -> (s: String)
    requires
        upto <= pairs.len(),
    ensures
        s@ == dict_body(pairs@.take(upto as int)),
    decreases pairs@, upto,
{
    if upto == 0 {
        let s = String::new();
        proof {
            assert(pairs@.take(0) =~= Seq::<(String, Value)>::empty());
        }
        s
    } else {
        let mut s = render_pairs(pairs, upto - 1);
        let key = render_text(pairs[upto - 1].0.as_str());
        let lit = pairs[upto - 1].1.render();
        s.append(key.as_str());
        s.append(":");
        s.append(lit.as_str());
        s.append(",");
        proof {
            reveal_strlit(":");
            reveal_strlit(",");
            assert(pairs@.take(upto as int).drop_last() =~= pairs@.take(upto - 1));
            assert(pairs@.take(upto as int).last() == pairs@[upto - 1]);
            assert(s@ =~= dict_body(pairs@.take(upto as int)));
        }
        s
    }
}

impl Value {
    /// Renders this value as a Python literal.
    pub fn render(&self) -> (s: String)
        ensures
            s@ == value_literal(*self),
        decreases *self, 0nat,
    {
        match self {
            Value::Int(i) => render_i64(*i),
            Value::UInt(u) => render_u64(*u),
            Value::Text(t) => render_text(t.as_str()),
            Value::List(items) => {
                let mut out = String::from_str("[");
                let body = render_items(items, items.len());
                out.append(body.as_str());
                out.append("]");
                proof {
                    reveal_strlit("[");
                    reveal_strlit("]");
                    assert(items@.take(items@.len() as int) =~= items@);
                    assert(out@ =~= value_literal(*self));
                }
                out
            },
            Value::Dict(pairs) => {
                let mut out = String::from_str("{");
                let body = render_pairs(pairs, pairs.len());
                out.append(body.as_str());
                out.append("}");
                proof {
                    reveal_strlit("{");
                    reveal_strlit("}");
                    assert(pairs@.take(pairs@.len() as int) =~= pairs@);
                    assert(out@ =~= value_literal(*self));
                }
                out
            },
        }
    }
}

impl AsPythonLitteral for Value {
    open spec fn literal(&self) -> Seq<char> {
        value_literal(*self)
    }

    fn to_literal(&self) -> (s: String) {
        self.render()
    }
}

/// A sequence of rendered parts laid end to end, each followed by a comma.
pub open spec fn joined(parts: Seq<Seq<char>>) -> Seq<char>
    decreases parts.len(),
{
    if parts.len() == 0 {
        Seq::empty()
    } else {
        joined(parts.drop_last()) + parts.last() + seq![',']
    }
}

proof fn lemma_list_body_joined(items: Seq<Value>)
    ensures
        list_body(items) == joined(items.map_values(|v: Value| value_literal(v))),
    decreases items.len(),
{
    let renderings = items.map_values(|v: Value| value_literal(v));
    if items.len() == 0 {
        assert(renderings.len() == 0);
    } else {
        lemma_list_body_joined(items.drop_last());
        assert(renderings.drop_last() =~= items.drop_last().map_values(
            |v: Value| value_literal(v),
        ));
        assert(renderings.last() == value_literal(items.last()));
    }
}

/// A rendered list begins with `[`, ends with `]`, and between the two
/// brackets holds exactly one rendering per element, in order, each
/// followed by a comma.
pub proof fn lemma_render_list_shape(items: Vec<Value>)
    ensures
        value_literal(Value::List(items)) == seq!['['] + joined(
            items@.map_values(|v: Value| value_literal(v)),
        ) + seq![']'],
        items@.map_values(|v: Value| value_literal(v)).len() == items@.len(),
        value_literal(Value::List(items)).first() == '[',
        value_literal(Value::List(items)).last() == ']',
{
    lemma_list_body_joined(items@);
    let s = value_literal(Value::List(items));
    assert(s == seq!['['] + joined(items@.map_values(|v: Value| value_literal(v))) + seq![']']);
    assert(s.last() == ']');
}

/// The inside of a list literal over any renderable element type: each
/// element's rendering followed by a comma, in order.
pub open spec fn elems_literal<T: AsPythonLitteral>(s: Seq<T>) -> Seq<char>
    decreases s.len(),
{
    if s.len() == 0 {
        Seq::empty()
    } else {
        elems_literal(s.drop_last()) + s.last().literal() + seq![',']
    }
}

impl<T: AsPythonLitteral> AsPythonLitteral for [T] {
    open spec fn literal(&self) -> Seq<char> {
        seq!['['] + elems_literal(self@) + seq![']']
    }

    fn to_literal(&self) -> (s: String) {
        let mut out = String::from_str("[");
        proof {
            reveal_strlit("[");
            assert(self@.take(0) =~= Seq::<T>::empty());
            assert(out@ =~= seq!['['] + elems_literal(self@.take(0)));
        }
        let mut i: usize = 0;
        while i < self.len()
            invariant
                i <= self.len(),
                out@ == seq!['['] + elems_literal(self@.take(i as int)),
            decreases self.len() - i,
        {
            let lit = self[i].to_literal();
            out.append(lit.as_str());
            out.append(",");
            proof {
                reveal_strlit(",");
                assert(self@.take(i + 1).drop_last() =~= self@.take(i as int));
                assert(self@.take(i + 1).last() == self@[i as int]);
                assert(out@ =~= seq!['['] + elems_literal(self@.take(i + 1)));
            }
            i = i + 1;
        }
        out.append("]");
        proof {
            reveal_strlit("]");
            assert(self@.take(self@.len() as int) =~= self@);
            assert(out@ =~= self.literal());
        }
        out
    }
}

impl<T: AsPythonLitteral> AsPythonLitteral for Vec<T> {
    open spec fn literal(&self) -> Seq<char> {
        seq!['['] + elems_literal(self@) + seq![']']
    }

    fn to_literal(&self) -> (s: String) {
        let mut out = String::from_str("[");
        proof {
            reveal_strlit("[");
            assert(self@.take(0) =~= Seq::<T>::empty());
            assert(out@ =~= seq!['['] + elems_literal(self@.take(0)));
        }
        let mut i: usize = 0;
        while i < self.len()
            invariant
                i <= self.len(),
                out@ == seq!['['] + elems_literal(self@.take(i as int)),
            decreases self.len() - i,
        {
            let lit = self[i].to_literal();
            out.append(lit.as_str());
            out.append(",");
            proof {
                reveal_strlit(",");
                assert(self@.take(i + 1).drop_last() =~= self@.take(i as int));
                assert(self@.take(i + 1).last() == self@[i as int]);
                assert(out@ =~= seq!['['] + elems_literal(self@.take(i + 1)));
            }
            i = i + 1;
        }
        out.append("]");
        proof {
            reveal_strlit("]");
            assert(self@.take(self@.len() as int) =~= self@);
            assert(out@ =~= self.literal());
        }
        out
    }
}

} // verus!


