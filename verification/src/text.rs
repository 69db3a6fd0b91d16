//! Building text: characters appended to a `String`, and the decimal spelling
//! of a line number or a count.
use vstd::prelude::*;
use vstd::std_specs::iter::IteratorSpec;

verus! {

/// `String::push` of the standard library appends one character at the end of
/// the string and leaves the rest as it was.
pub assume_specification[ std::string::String::push ](s: &mut std::string::String, c: char)
    ensures
        final(s)@ == old(s)@.push(c),
;

/// The character of a decimal digit.
pub open spec fn digit_char(d: nat) -> char
    recommends
        d < 10,
{
    if d == 0 {
        '0'
    } else if d == 1 {
        '1'
    } else if d == 2 {
        '2'
    } else if d == 3 {
        '3'
    } else if d == 4 {
        '4'
    } else if d == 5 {
        '5'
    } else if d == 6 {
        '6'
    } else if d == 7 {
        '7'
    } else if d == 8 {
        '8'
    } else {
        '9'
    }
}

/// The decimal spelling of a natural number, without leading zeros.
pub open spec fn decimal_text(n: nat) -> Seq<char>
    decreases n,
{
    if n < 10 {
        seq![digit_char(n)]
    } else {
        decimal_text(n / 10).push(digit_char(n % 10))
    }
}

/// The digits of `n` from the last to the first.
pub open spec fn reversed_digits(n: nat) -> Seq<char>
    decreases n,
{
    if n < 10 {
        seq![digit_char(n)]
    } else {
        seq![digit_char(n % 10)] + reversed_digits(n / 10)
    }
}

/// Read backwards, the reversed digits are the decimal spelling.
pub proof fn lemma_reversed_digits(n: nat)
    ensures
        reversed_digits(n).reverse() =~= decimal_text(n),
    decreases n,
{
    if n >= 10 {
        lemma_reversed_digits(n / 10);
        let head = seq![digit_char(n % 10)];
        let tail = reversed_digits(n / 10);
        assert((head + tail).reverse() =~= tail.reverse().push(digit_char(n % 10)));
    }
}

fn digit(d: usize) -> (c: char)
    requires
        d < 10,
    ensures
        c == digit_char(d as nat),
{
    if d == 0 {
        '0'
    } else if d == 1 {
        '1'
    } else if d == 2 {
        '2'
    } else if d == 3 {
        '3'
    } else if d == 4 {
        '4'
    } else if d == 5 {
        '5'
    } else if d == 6 {
        '6'
    } else if d == 7 {
        '7'
    } else if d == 8 {
        '8'
    } else {
        '9'
    }
}

/// Appends the decimal spelling of `n` to `out`.
pub fn push_decimal(out: &mut String, n: usize)
    ensures
        final(out)@ == old(out)@ + decimal_text(n as nat),
{
    let mut digits: Vec<char> = Vec::new();
    let mut rest: usize = n;
    while rest >= 10
        invariant
            digits@ + reversed_digits(rest as nat) =~= reversed_digits(n as nat),
        decreases rest,
    {
        digits.push(digit(rest % 10));
        rest = rest / 10;
    }
    digits.push(digit(rest));
    assert(digits@ =~= reversed_digits(n as nat));
    proof {
        lemma_reversed_digits(n as nat);
    }
    let mut i: usize = digits.len();
    while i > 0
        invariant
            i <= digits.len(),
            digits@ == reversed_digits(n as nat),
            out@ =~= old(out)@ + digits@.reverse().subrange(0, digits.len() - i),
        decreases i,
    {
        i = i - 1;
        out.push(digits[i]);
    }
    assert(digits@.reverse().subrange(0, digits.len() as int) =~= digits@.reverse());
}

/// The decimal spelling of `n`.
pub fn decimal(n: usize) -> (r: String)
    ensures
        r@ == decimal_text(n as nat),
{
    let mut r = String::new();
    push_decimal(&mut r, n);
    assert(Seq::<char>::empty() + decimal_text(n as nat) =~= decimal_text(n as nat));
    r
}

/// The characters of `chars` from `from` up to `to`, as a string.
pub fn collect(chars: &Vec<char>, from: usize, to: usize) -> (r: String)
    requires
        from <= to <= chars.len(),
    ensures
        r@ == chars@.subrange(from as int, to as int),
{
    let mut r = String::new();
    let mut i: usize = from;
    while i < to
        invariant
            from <= i <= to <= chars.len(),
            r@ =~= chars@.subrange(from as int, i as int),
        decreases to - i,
    {
        r.push(chars[i]);
        i = i + 1;
    }
    r
}

/// The characters of a string, in order.
pub fn characters(source: &str) -> (r: Vec<char>)
    ensures
        r@ == source@,
{
    broadcast use vstd::string::group_string_axioms;

    let mut r: Vec<char> = Vec::new();
    let mut rest = source.chars();
    assert(rest.remaining() == source@);
    loop
        invariant
            rest.obeys_prophetic_iter_laws(),
            rest.decrease() is Some,
            r@ + rest.remaining() == source@,
        decreases rest.decrease()->0,
    {
        let ghost before = rest.remaining();
        match rest.next() {
            Some(c) => {
                r.push(c);
                assert(r@ + rest.remaining() =~= (r@.drop_last() + before));
            },
            None => {
                assert(r@ + rest.remaining() =~= r@);
                return r;
            },
        }
    }
}

} // verus!
