use vstd::prelude::*;

verus! {

/// The text with exactly one trailing line terminator removed, if it has one.
pub open spec fn strip_line_end(s: Seq<char>) -> Seq<char> {
    if s.len() > 0 && s.last() == '\n' {
        s.drop_last()
    } else {
        s
    }
}

/// Removes a single trailing line terminator from text read out of a property.
pub fn strip_line_terminator(s: &str) -> (r: String)
    ensures
        r@ == strip_line_end(s@),
{
    let n = s.unicode_len();
    if n > 0 && s.get_char(n - 1) == '\n' {
        s.substring_char(0, n - 1).to_owned()
    } else {
        s.to_owned()
    }
}

} // verus!

verus! {

/// The pieces of `s` between occurrences of `d`, in order; empty pieces are kept,
/// so the result always has one more piece than `s` has delimiters.
pub open spec fn split_on(s: Seq<char>, d: char) -> Seq<Seq<char>>
    decreases s.len(),
{
    if s.len() == 0 {
        seq![Seq::<char>::empty()]
    } else {
        let prev = split_on(s.drop_last(), d);
        if s.last() == d {
            prev.push(Seq::<char>::empty())
        } else {
            prev.update(prev.len() - 1, prev.last().push(s.last()))
        }
    }
}

/// The pieces of `v` with `d` between each two neighbours.
pub open spec fn join_on(v: Seq<Seq<char>>, d: char) -> Seq<char>
    decreases v.len(),
{
    if v.len() == 0 {
        Seq::<char>::empty()
    } else if v.len() == 1 {
        v[0]
    } else {
        join_on(v.drop_last(), d).push(d) + v.last()
    }
}

/// No piece of `v` holds the delimiter `d`.
pub open spec fn free_of(v: Seq<Seq<char>>, d: char) -> bool {
    forall|i: int| 0 <= i < v.len() ==> !(#[trigger] v[i]).contains(d)
}

pub proof fn lemma_split_len(s: Seq<char>, d: char)
    ensures
        split_on(s, d).len() >= 1,
    decreases s.len(),
{
    if s.len() > 0 {
        lemma_split_len(s.drop_last(), d);
    }
}

/// Appending text without a delimiter only extends the last piece.
pub proof fn lemma_split_append_plain(s: Seq<char>, t: Seq<char>, d: char)
    requires
        !t.contains(d),
    ensures
        split_on(s + t, d) == split_on(s, d).update(
            split_on(s, d).len() - 1,
            split_on(s, d).last() + t,
        ),
    decreases t.len(),
{
    lemma_split_len(s, d);
    let p = split_on(s, d);
    if t.len() == 0 {
        assert(s + t =~= s);
        assert(p.last() + t =~= p.last());
        assert(p.update(p.len() - 1, p.last()) =~= p);
    } else {
        let t0 = t.drop_last();
        let c = t.last();
        assert(!t0.contains(d)) by {
            if t0.contains(d) {
                let k = choose|k: int| 0 <= k < t0.len() && t0[k] == d;
                assert(t[k] == d);
            }
        }
        assert(c != d) by {
            assert(t[t.len() - 1] == c);
        }
        lemma_split_append_plain(s, t0, d);
        assert((s + t).drop_last() =~= s + t0);
        assert((s + t).last() == c);
        assert((p.last() + t0).push(c) =~= p.last() + t);
        assert(p.update(p.len() - 1, p.last() + t0).update(p.len() - 1, p.last() + t) =~= p.update(
            p.len() - 1,
            p.last() + t,
        ));
    }
}

/// Splitting a joined list gives the list back, when it has at least one piece
/// and no piece holds the delimiter.
pub proof fn lemma_split_join(v: Seq<Seq<char>>, d: char)
    requires
        v.len() >= 1,
        free_of(v, d),
    ensures
        split_on(join_on(v, d), d) == v,
    decreases v.len(),
{
    let e = Seq::<char>::empty();
    if v.len() == 1 {
        lemma_split_append_plain(e, v[0], d);
        assert(e + v[0] =~= v[0]);
        assert(split_on(e, d) =~= seq![e]);
        assert(e + v[0] =~= v[0]);
        assert(seq![e].update(0, e + v[0]) =~= v);
    } else {
        let w = v.drop_last();
        assert forall|i: int| 0 <= i < w.len() implies !(#[trigger] w[i]).contains(d) by {
            assert(w[i] == v[i]);
        }
        lemma_split_join(w, d);
        let j = join_on(w, d).push(d);
        assert(j.drop_last() =~= join_on(w, d));
        assert(split_on(j, d) == w.push(e));
        assert(!v.last().contains(d)) by {
            assert(v[v.len() - 1] == v.last());
        }
        lemma_split_append_plain(j, v.last(), d);
        assert(e + v.last() =~= v.last());
        assert(w.push(e).update(w.len() as int, e + v.last()) =~= v);
    }
}

/// The one-character text of a list delimiter.
fn delimiter_text(d: char) -> (r: &'static str)
    requires
        d == ';' || d == ':',
    ensures
        r@ == seq![d],
{
    proof {
        reveal_strlit(";");
        reveal_strlit(":");
    }
    if d == ';' {
        ";"
    } else {
        ":"
    }
}

/// Splits `s` on `d` into its pieces, in order, empty ones included.
pub fn split_list(s: &str, d: char) -> (r: Vec<String>)
    ensures
        r.deep_view() == split_on(s@, d),
{
    let n = s.unicode_len();
    let mut pieces: Vec<String> = Vec::new();
    let mut start: usize = 0;
    let mut i: usize = 0;
    assert(s@.subrange(0, 0) =~= Seq::<char>::empty());
    assert(pieces.deep_view().push(s@.subrange(0, 0)) =~= seq![Seq::<char>::empty()]);
    while i < n
        invariant
            n == s@.len(),
            start <= i <= n,
            pieces.deep_view().push(s@.subrange(start as int, i as int)) == split_on(
                s@.subrange(0, i as int),
                d,
            ),
        decreases n - i,
    {
        let c = s.get_char(i);
        let ghost prefix = s@.subrange(0, i as int + 1);
        assert(prefix.drop_last() =~= s@.subrange(0, i as int));
        assert(prefix.last() == c);
        if c == d {
            let piece = s.substring_char(start, i).to_owned();
            let ghost before = pieces.deep_view();
            pieces.push(piece);
            assert(pieces.deep_view() =~= before.push(piece@));
            start = i + 1;
            assert(s@.subrange(start as int, start as int) =~= Seq::<char>::empty());
        } else {
            assert(s@.subrange(start as int, i as int).push(c) =~= s@.subrange(
                start as int,
                i as int + 1,
            ));
            assert(pieces.deep_view().push(s@.subrange(start as int, i as int + 1)) =~= pieces.deep_view().push(
                s@.subrange(start as int, i as int),
            ).update(
                pieces.deep_view().len() as int,
                s@.subrange(start as int, i as int + 1),
            ));
        }
        i = i + 1;
    }
    let last = s.substring_char(start, n).to_owned();
    let ghost before = pieces.deep_view();
    pieces.push(last);
    assert(pieces.deep_view() =~= before.push(last@));
    assert(s@.subrange(0, n as int) =~= s@);
    pieces
}

/// Joins `v` into one text with `d` between neighbouring pieces.
pub fn join_list(v: &Vec<String>, d: char) -> (r: String)
    requires
        d == ';' || d == ':',
    ensures
        r@ == join_on(v.deep_view(), d),
{
    let sep = delimiter_text(d);
    let mut out = String::new();
    let mut i: usize = 0;
    while i < v.len()
        invariant
            sep@ == seq![d],
            i <= v.len(),
            i == 0 ==> out@ == Seq::<char>::empty(),
            i > 0 ==> out@ == join_on(v.deep_view().subrange(0, i as int), d),
        decreases v.len() - i,
    {
        let ghost w = v.deep_view().subrange(0, i as int + 1);
        assert(w.last() == v[i as int]@);
        if i > 0 {
            assert(w.drop_last() =~= v.deep_view().subrange(0, i as int));
            out.append(sep);
        } else {
            assert(w =~= seq![v[0]@]);
        }
        out.append(v[i].as_str());
        assert(i > 0 ==> out@ =~= join_on(w.drop_last(), d).push(d) + w.last());
        assert(i == 0 ==> out@ =~= w[0]);
        i = i + 1;
    }
    assert(v.deep_view().subrange(0, v.len() as int) =~= v.deep_view());
    out
}

} // verus!

verus! {

pub open spec fn is_digit(c: char) -> bool {
    '0' <= c && c <= '9'
}

pub open spec fn digit_value(c: char) -> nat {
    (c as int - '0' as int) as nat
}

pub open spec fn all_digits(s: Seq<char>) -> bool {
    forall|i: int| 0 <= i < s.len() ==> is_digit(#[trigger] s[i])
}

/// One or more decimal digits.
pub open spec fn is_digit_run(s: Seq<char>) -> bool {
    s.len() > 0 && all_digits(s)
}

/// The number that a run of decimal digits writes.
pub open spec fn digits_value(s: Seq<char>) -> nat
    decreases s.len(),
{
    if s.len() == 0 {
        0
    } else {
        digits_value(s.drop_last()) * 10 + digit_value(s.last())
    }
}

/// The value of decimal text as std reads it for a signed integer type: an
/// optional `+` or `-`, then one or more digits, and nothing else.
pub open spec fn signed_decimal(s: Seq<char>) -> Option<int> {
    if s.len() > 0 && s[0] == '-' && is_digit_run(s.drop_first()) {
        Some(-(digits_value(s.drop_first()) as int))
    } else if s.len() > 0 && s[0] == '+' && is_digit_run(s.drop_first()) {
        Some(digits_value(s.drop_first()) as int)
    } else if is_digit_run(s) {
        Some(digits_value(s) as int)
    } else {
        None
    }
}

/// The value of decimal text as std reads it for an unsigned integer type: an
/// optional `+`, then one or more digits, and nothing else.
pub open spec fn unsigned_decimal(s: Seq<char>) -> Option<nat> {
    if s.len() > 0 && s[0] == '+' && is_digit_run(s.drop_first()) {
        Some(digits_value(s.drop_first()))
    } else if is_digit_run(s) {
        Some(digits_value(s))
    } else {
        None
    }
}

/// The `i32` that the text denotes, if it is well formed and in range.
pub open spec fn parsed_i32(s: Seq<char>) -> Option<i32> {
    match signed_decimal(s) {
        Some(v) => if i32::MIN <= v <= i32::MAX {
            Some(v as i32)
        } else {
            None
        },
        None => None,
    }
}

/// The `usize` that the text denotes, if it is well formed and in range.
pub open spec fn parsed_usize(s: Seq<char>) -> Option<usize> {
    match unsigned_decimal(s) {
        Some(v) => if v <= usize::MAX {
            Some(v as usize)
        } else {
            None
        },
        None => None,
    }
}

pub open spec fn digit_char(d: nat) -> char {
    seq!['0', '1', '2', '3', '4', '5', '6', '7', '8', '9'][d as int]
}

/// The shortest decimal digits of `n`.
pub open spec fn digits_text(n: nat) -> Seq<char>
    decreases n,
{
    if n < 10 {
        seq![digit_char(n)]
    } else {
        digits_text(n / 10).push(digit_char(n % 10))
    }
}

/// The decimal form of `i`: a `-` before the digits of a negative number.
pub open spec fn decimal_text(i: int) -> Seq<char> {
    if i < 0 {
        seq!['-'] + digits_text((-i) as nat)
    } else {
        digits_text(i as nat)
    }
}

proof fn lemma_digit_table()
    ensures
        digit_char(0) == '0' && digit_char(1) == '1' && digit_char(2) == '2',
        digit_char(3) == '3' && digit_char(4) == '4' && digit_char(5) == '5',
        digit_char(6) == '6' && digit_char(7) == '7' && digit_char(8) == '8',
        digit_char(9) == '9',
{
    let t = seq!['0', '1', '2', '3', '4', '5', '6', '7', '8', '9'];
    assert(t[0] == '0' && t[1] == '1' && t[2] == '2' && t[3] == '3' && t[4] == '4');
    assert(t[5] == '5' && t[6] == '6' && t[7] == '7' && t[8] == '8' && t[9] == '9');
}

pub proof fn lemma_digit_char(d: nat)
    requires
        d < 10,
    ensures
        is_digit(digit_char(d)),
        digit_value(digit_char(d)) == d,
{
    lemma_digit_table();
}

pub proof fn lemma_digits_text(n: nat)
    ensures
        is_digit_run(digits_text(n)),
        digits_value(digits_text(n)) == n,
    decreases n,
{
    lemma_digit_char(n % 10);
    if n < 10 {
        let s = digits_text(n);
        assert(s.drop_last() =~= Seq::<char>::empty());
        assert(digits_value(Seq::<char>::empty()) == 0);
        assert(s.last() == digit_char(n));
        assert(n % 10 == n);
    } else {
        lemma_digits_text(n / 10);
        let s = digits_text(n);
        assert(s.drop_last() =~= digits_text(n / 10));
        assert(s.last() == digit_char(n % 10));
        assert(digits_value(s) == (n / 10) * 10 + n % 10);
        assert((n / 10) * 10 + n % 10 == n) by (nonlinear_arith);
        assert forall|i: int| 0 <= i < s.len() implies is_digit(#[trigger] s[i]) by {
            if i < s.len() - 1 {
                assert(s[i] == digits_text(n / 10)[i]);
            }
        }
    }
}

/// Reading back the decimal form of an integer gives the integer.
pub proof fn lemma_decimal_round_trip(i: int)
    ensures
        signed_decimal(decimal_text(i)) == Some(i),
{
    if i < 0 {
        let m = (-i) as nat;
        lemma_digits_text(m);
        assert((seq!['-'] + digits_text(m)).drop_first() =~= digits_text(m));
    } else {
        lemma_digits_text(i as nat);
        let s = digits_text(i as nat);
        assert(is_digit(s[0]));
    }
}

/// An `i32` written in decimal reads back as the same `i32`.
pub proof fn lemma_i32_round_trip(v: i32)
    ensures
        parsed_i32(decimal_text(v as int)) == Some(v),
{
    lemma_decimal_round_trip(v as int);
}

proof fn lemma_digits_prefix(s: Seq<char>, k: int)
    requires
        all_digits(s),
        0 <= k <= s.len(),
    ensures
        digits_value(s.subrange(0, k)) <= digits_value(s),
    decreases s.len(),
{
    if k < s.len() {
        let t = s.drop_last();
        assert(all_digits(t)) by {
            assert forall|i: int| 0 <= i < t.len() implies is_digit(#[trigger] t[i]) by {
                assert(t[i] == s[i]);
            }
        }
        lemma_digits_prefix(t, k);
        assert(t.subrange(0, k) =~= s.subrange(0, k));
    } else {
        assert(s.subrange(0, k) =~= s);
    }
}

/// The value of the digits in `s` from `start` to the end, if they are one or
/// more digits whose value is at most `bound`.
fn digit_run_value(s: &str, start: usize, n: usize, bound: u64) -> (r: Option<u64>)
    requires
        n == s@.len(),
        start <= n,
    ensures
        r == (if is_digit_run(s@.subrange(start as int, n as int)) && digits_value(
            s@.subrange(start as int, n as int),
        ) <= bound {
            Some(digits_value(s@.subrange(start as int, n as int)) as u64)
        } else {
            None
        }),
{
    let ghost whole = s@.subrange(start as int, n as int);
    let mut acc: u128 = 0;
    let mut i: usize = start;
    assert(s@.subrange(start as int, start as int) =~= Seq::<char>::empty());
    while i < n
        invariant
            n == s@.len(),
            start <= i <= n,
            whole == s@.subrange(start as int, n as int),
            all_digits(s@.subrange(start as int, i as int)),
            acc == digits_value(s@.subrange(start as int, i as int)),
            acc <= bound,
        decreases n - i,
    {
        let c = s.get_char(i);
        let ghost next = s@.subrange(start as int, i as int + 1);
        assert(next.drop_last() =~= s@.subrange(start as int, i as int));
        assert(next.last() == c);
        if !('0' <= c && c <= '9') {
            assert(whole[i - start] == c);
            return None;
        }
        acc = acc * 10 + (c as u32 - '0' as u32) as u128;
        assert(all_digits(next)) by {
            assert forall|k: int| 0 <= k < next.len() implies is_digit(#[trigger] next[k]) by {
                if k < next.len() - 1 {
                    assert(next[k] == s@.subrange(start as int, i as int)[k]);
                }
            }
        }
        if acc > bound as u128 {
            proof {
                if all_digits(whole) {
                    lemma_digits_prefix(whole, i - start + 1);
                    assert(whole.subrange(0, i - start + 1) =~= next);
                }
            }
            return None;
        }
        i = i + 1;
    }
    if i == start {
        return None;
    }
    Some(acc as u64)
}

/// Reads an `i32` written in decimal, as `i32::from_str` does.
pub fn parse_i32(s: &str) -> (r: Option<i32>)
    ensures
        r == parsed_i32(s@),
{
    let n = s.unicode_len();
    if n > 0 && s.get_char(0) == '-' {
        assert(s@.subrange(1, n as int) =~= s@.drop_first());
        match digit_run_value(s, 1, n, 2147483648) {
            Some(m) => Some((0 - m as i64) as i32),
            None => None,
        }
    } else if n > 0 && s.get_char(0) == '+' {
        assert(s@.subrange(1, n as int) =~= s@.drop_first());
        match digit_run_value(s, 1, n, 2147483647) {
            Some(m) => Some(m as i32),
            None => None,
        }
    } else {
        assert(s@.subrange(0, n as int) =~= s@);
        match digit_run_value(s, 0, n, 2147483647) {
            Some(m) => Some(m as i32),
            None => None,
        }
    }
}

/// Reads a `usize` written in decimal, as `usize::from_str` does.
pub fn parse_usize(s: &str) -> (r: Option<usize>)
    ensures
        r == parsed_usize(s@),
{
    let n = s.unicode_len();
    if n > 0 && s.get_char(0) == '+' {
        assert(s@.subrange(1, n as int) =~= s@.drop_first());
        match digit_run_value(s, 1, n, usize::MAX as u64) {
            Some(m) => Some(m as usize),
            None => None,
        }
    } else {
        assert(s@.subrange(0, n as int) =~= s@);
        if n > 0 && s.get_char(0) == '-' {
            assert(!is_digit(s@[0]));
            return None;
        }
        match digit_run_value(s, 0, n, usize::MAX as u64) {
            Some(m) => Some(m as usize),
            None => None,
        }
    }
}

fn digit_text(d: u64) -> (r: &'static str)
    requires
        d < 10,
    ensures
        r@ == seq![digit_char(d as nat)],
{
    proof {
        reveal_strlit("0");
        reveal_strlit("1");
        reveal_strlit("2");
        reveal_strlit("3");
        reveal_strlit("4");
        reveal_strlit("5");
        reveal_strlit("6");
        reveal_strlit("7");
        reveal_strlit("8");
        reveal_strlit("9");
    }
    proof {
        lemma_digit_table();
    }
    if d == 0 {
        "0"
    } else if d == 1 {
        "1"
    } else if d == 2 {
        "2"
    } else if d == 3 {
        "3"
    } else if d == 4 {
        "4"
    } else if d == 5 {
        "5"
    } else if d == 6 {
        "6"
    } else if d == 7 {
        "7"
    } else if d == 8 {
        "8"
    } else {
        "9"
    }
}

fn push_digits(out: &mut String, n: u64)
    ensures
        final(out)@ == old(out)@ + digits_text(n as nat),
    decreases n,
{
    if n >= 10 {
        push_digits(out, n / 10);
    }
    out.append(digit_text(n % 10));
    if n >= 10 {
        assert(old(out)@ + digits_text((n / 10) as nat) + seq![digit_char((n % 10) as nat)]
            =~= old(out)@ + digits_text(n as nat));
    } else {
        assert(old(out)@ + seq![digit_char((n % 10) as nat)] =~= old(out)@ + digits_text(
            n as nat,
        ));
    }
}

/// The decimal form of `v`, as `i32::to_string` writes it.
pub fn decimal_string(v: i32) -> (r: String)
    ensures
        r@ == decimal_text(v as int),
{
    let mut out = String::new();
    if v < 0 {
        proof {
            reveal_strlit("-");
        }
        out.append("-");
        push_digits(&mut out, (0 - v as i64) as u64);
    } else {
        push_digits(&mut out, v as u64);
    }
    out
}

/// Whether two texts are the same, character for character.
pub fn same_text(a: &str, b: &str) -> (r: bool)
    ensures
        r == (a@ == b@),
{
    let n = a.unicode_len();
    if n != b.unicode_len() {
        return false;
    }
    let mut i: usize = 0;
    while i < n
        invariant
            n == a@.len() == b@.len(),
            i <= n,
            forall|k: int| 0 <= k < i ==> a@[k] == b@[k],
        decreases n - i,
    {
        if a.get_char(i) != b.get_char(i) {
            return false;
        }
        i = i + 1;
    }
    assert(a@ =~= b@);
    true
}

} // verus!
