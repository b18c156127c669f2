use vstd::prelude::*;

verus! {

/// The Unicode `White_Space` property, the set of characters that
/// `char::is_whitespace` (and so `str::trim`) treats as white space.
pub open spec fn is_ws(c: char) -> bool {
    ||| ('\u{9}' <= c && c <= '\u{d}')
    ||| c == ' '
    ||| c == '\u{85}'
    ||| c == '\u{a0}'
    ||| c == '\u{1680}'
    ||| ('\u{2000}' <= c && c <= '\u{200a}')
    ||| c == '\u{2028}'
    ||| c == '\u{2029}'
    ||| c == '\u{202f}'
    ||| c == '\u{205f}'
    ||| c == '\u{3000}'
}

pub fn is_whitespace(c: char) -> (r: bool)
    ensures
        r == is_ws(c),
{
    ('\u{9}' <= c && c <= '\u{d}') || c == ' ' || c == '\u{85}' || c == '\u{a0}' || c == '\u{1680}'
        || ('\u{2000}' <= c && c <= '\u{200a}') || c == '\u{2028}' || c == '\u{2029}' || c
        == '\u{202f}' || c == '\u{205f}' || c == '\u{3000}'
}

/// The characters of a string slice.
pub fn chars_of(s: &str) -> (r: Vec<char>)
    ensures
        r@ == s@,
{
    let mut r: Vec<char> = Vec::new();
    for c in it: s.chars()
        invariant
            r@ == it.seq().take(it.index() as int),
    {
        r.push(c);
    }
    r
}


/// Appends one character to a `String` (`String::push`).
#[verifier::external_body]
fn push_char(s: &mut String, c: char)
    ensures
        final(s)@ == old(s)@.push(c),
{
    s.push(c);
}

/// The string made of the given characters.
pub fn string_of(v: &Vec<char>) -> (r: String)
    ensures
        r@ == v@,
{
    let mut r = String::new();
    let mut i: usize = 0;
    while i < v.len()
        invariant
            i <= v@.len(),
            r@ == v@.take(i as int),
        decreases v@.len() - i,
    {
        push_char(&mut r, v[i]);
        assert(v@.take(i + 1) =~= v@.take(i as int).push(v@[i as int]));
        i += 1;
    }
    assert(v@.take(v@.len() as int) =~= v@);
    r
}

/// The characters of a literal, as a vector.
pub fn lit(s: &str) -> (r: Vec<char>)
    ensures
        r@ == s@,
{
    chars_of(s)
}

/// Appends the characters of `b` to `a`.
pub fn append(a: &mut Vec<char>, b: &Vec<char>)
    ensures
        final(a)@ == old(a)@ + b@,
{
    let ghost a0 = a@;
    let mut i: usize = 0;
    while i < b.len()
        invariant
            i <= b@.len(),
            a@ == a0 + b@.take(i as int),
        decreases b@.len() - i,
    {
        a.push(b[i]);
        assert(b@.take(i + 1) =~= b@.take(i as int).push(b@[i as int]));
        i += 1;
    }
    assert(b@.take(b@.len() as int) =~= b@);
}

/// `a` followed by `b`.
pub fn concat(a: &Vec<char>, b: &Vec<char>) -> (r: Vec<char>)
    ensures
        r@ == a@ + b@,
{
    let mut r = a.clone();
    append(&mut r, b);
    r
}

/// Whether `p` stands in `s` starting at position `i`.
pub open spec fn occurs_at(s: Seq<char>, p: Seq<char>, i: int) -> bool {
    0 <= i && i + p.len() <= s.len() && s.subrange(i, i + p.len()) == p
}

/// `str::contains` with a string pattern: some sub-slice equals `p`.
pub open spec fn contains_spec(s: Seq<char>, p: Seq<char>) -> bool {
    exists|i: int| #[trigger] occurs_at(s, p, i)
}

pub fn occurs_at_exec(s: &Vec<char>, p: &Vec<char>, i: usize) -> (r: bool)
    ensures
        r == occurs_at(s@, p@, i as int),
{
    if i > s.len() || p.len() > s.len() - i {
        return false;
    }
    let mut j: usize = 0;
    while j < p.len()
        invariant
            i + p@.len() <= s@.len(),
            s@.len() <= usize::MAX,
            j <= p@.len(),
            forall|k: int| 0 <= k < j ==> s@[i + k] == p@[k],
        decreases p@.len() - j,
    {
        if s[i + j] != p[j] {
            assert(s@.subrange(i as int, i + p@.len())[j as int] != p@[j as int]);
            return false;
        }
        j += 1;
    }
    assert(s@.subrange(i as int, i + p@.len()) =~= p@);
    true
}

/// `str::starts_with` with a string pattern.
pub fn starts_with(s: &Vec<char>, p: &Vec<char>) -> (r: bool)
    ensures
        r == p@.is_prefix_of(s@),
{
    let r = occurs_at_exec(s, p, 0);
    proof {
        if p@.len() <= s@.len() {
            assert(s@.subrange(0, p@.len() as int) =~= s@.subrange(0, 0int + p@.len()));
        }
    }
    r
}

/// `str::ends_with` with a string pattern.
pub fn ends_with(s: &Vec<char>, p: &Vec<char>) -> (r: bool)
    ensures
        r == p@.is_suffix_of(s@),
{
    if p.len() > s.len() {
        return false;
    }
    occurs_at_exec(s, p, s.len() - p.len())
}

/// `str::contains` with a string pattern.
pub fn contains(s: &Vec<char>, p: &Vec<char>) -> (r: bool)
    ensures
        r == contains_spec(s@, p@),
{
    if p.len() > s.len() {
        assert forall|i: int| !#[trigger] occurs_at(s@, p@, i) by {}
        return false;
    }
    let last = s.len() - p.len();
    let mut i: usize = 0;
    loop
        invariant
            p@.len() <= s@.len(),
            last == s@.len() - p@.len(),
            i <= last,
            forall|k: int| 0 <= k < i ==> !#[trigger] occurs_at(s@, p@, k),
        ensures
            forall|k: int| 0 <= k <= last ==> !#[trigger] occurs_at(s@, p@, k),
        decreases last - i,
    {
        if occurs_at_exec(s, p, i) {
            return true;
        }
        if i == last {
            break;
        }
        i += 1;
    }
    assert forall|k: int| !#[trigger] occurs_at(s@, p@, k) by {
        if 0 <= k <= last {
        } else {
        }
    }
    false
}

/// Equality of two character sequences.
pub fn eq(a: &Vec<char>, b: &Vec<char>) -> (r: bool)
    ensures
        r == (a@ == b@),
{
    if a.len() != b.len() {
        return false;
    }
    let r = occurs_at_exec(a, b, 0);
    proof {
        assert(a@.subrange(0, 0int + b@.len()) =~= a@);
    }
    r
}


/// The characters of a `str::trim_start`.
pub open spec fn trim_start_spec(s: Seq<char>) -> Seq<char>
    decreases s.len(),
{
    if s.len() > 0 && is_ws(s[0]) {
        trim_start_spec(s.drop_first())
    } else {
        s
    }
}

/// The characters of a `str::trim_end`.
pub open spec fn trim_end_spec(s: Seq<char>) -> Seq<char>
    decreases s.len(),
{
    if s.len() > 0 && is_ws(s.last()) {
        trim_end_spec(s.drop_last())
    } else {
        s
    }
}

/// `str::trim`: leading and trailing white space removed.
pub open spec fn trim_spec(s: Seq<char>) -> Seq<char> {
    trim_end_spec(trim_start_spec(s))
}

proof fn lemma_trim_end_prefix(s: Seq<char>, b: int)
    requires
        0 <= b <= s.len(),
        forall|k: int| b <= k < s.len() ==> is_ws(#[trigger] s[k]),
    ensures
        trim_end_spec(s) == trim_end_spec(s.take(b)),
    decreases s.len() - b,
{
    if b < s.len() {
        lemma_trim_end_prefix(s, b + 1);
        let t = s.take(b + 1);
        assert(t.drop_last() =~= s.take(b));
        assert(t.last() == s[b]);
    } else {
        assert(s.take(b) =~= s);
    }
}

proof fn lemma_trim_start_suffix(s: Seq<char>, a: int)
    requires
        0 <= a <= s.len(),
        forall|k: int| 0 <= k < a ==> is_ws(#[trigger] s[k]),
    ensures
        trim_start_spec(s) == trim_start_spec(s.skip(a)),
    decreases a,
{
    if a > 0 {
        lemma_trim_start_suffix(s, a - 1);
        assert(s.skip(a - 1).drop_first() =~= s.skip(a));
    } else {
        assert(s.skip(0) =~= s);
    }
}

/// `str::trim`.
pub fn trim(s: &Vec<char>) -> (r: Vec<char>)
    ensures
        r@ == trim_spec(s@),
{
    let n = s.len();
    let mut a: usize = 0;
    while a < n && is_whitespace(s[a])
        invariant
            n == s@.len(),
            a <= n,
            forall|k: int| 0 <= k < a ==> is_ws(#[trigger] s@[k]),
        decreases n - a,
    {
        a += 1;
    }
    proof {
        lemma_trim_start_suffix(s@, a as int);
    }
    let ghost t = s@.skip(a as int);
    assert(a == n || !is_ws(t[0]));
    assert(trim_start_spec(t) == t);
    let mut b: usize = n;
    while b > a && is_whitespace(s[b - 1])
        invariant
            n == s@.len(),
            a <= b <= n,
            t == s@.skip(a as int),
            forall|k: int| b - a <= k < t.len() ==> is_ws(#[trigger] t[k]),
        decreases b,
    {
        b -= 1;
    }
    proof {
        lemma_trim_end_prefix(t, b - a);
        let u = t.take(b - a);
        assert(u.len() == 0 || !is_ws(u.last()));
    }
    let mut r: Vec<char> = Vec::new();
    let mut i: usize = a;
    while i < b
        invariant
            a <= i <= b <= n,
            n == s@.len(),
            r@ == s@.subrange(a as int, i as int),
        decreases b - i,
    {
        r.push(s[i]);
        assert(s@.subrange(a as int, i + 1) =~= s@.subrange(a as int, i as int).push(s@[i as int]));
        i += 1;
    }
    assert(r@ =~= t.take(b - a));
    r
}

/// `str::replace` with a non-empty pattern: every non-overlapping match of
/// `from`, found left to right, replaced by `to`.
pub open spec fn replace_spec(s: Seq<char>, from: Seq<char>, to: Seq<char>) -> Seq<char>
    decreases s.len(),
{
    if s.len() == 0 || from.len() == 0 {
        s
    } else if from.is_prefix_of(s) {
        to + replace_spec(s.skip(from.len() as int), from, to)
    } else {
        seq![s[0]] + replace_spec(s.drop_first(), from, to)
    }
}

proof fn lemma_occurs_prefix(s: Seq<char>, p: Seq<char>, i: int)
    requires
        0 <= i <= s.len(),
    ensures
        occurs_at(s, p, i) == p.is_prefix_of(s.skip(i)),
{
    if i + p.len() <= s.len() {
        assert(s.skip(i).subrange(0, p.len() as int) =~= s.subrange(i, i + p.len()));
    }
}

/// `str::replace` with a non-empty pattern.
pub fn replace(s: &Vec<char>, from: &Vec<char>, to: &Vec<char>) -> (r: Vec<char>)
    requires
        from@.len() > 0,
    ensures
        r@ == replace_spec(s@, from@, to@),
{
    let n = s.len();
    let mut r: Vec<char> = Vec::new();
    let mut i: usize = 0;
    assert(s@.skip(0) =~= s@);
    while i < n
        invariant
            n == s@.len(),
            i <= n,
            from@.len() > 0,
            replace_spec(s@, from@, to@) == r@ + replace_spec(s@.skip(i as int), from@, to@),
        decreases n - i,
    {
        proof {
            lemma_occurs_prefix(s@, from@, i as int);
        }
        let ghost rest = s@.skip(i as int);
        if occurs_at_exec(s, from, i) {
            append(&mut r, to);
            assert(rest.skip(from@.len() as int) =~= s@.skip(i + from@.len()));
            i += from.len();
        } else {
            r.push(s[i]);
            assert(rest.drop_first() =~= s@.skip(i + 1));
            i += 1;
        }
    }
    assert(s@.skip(n as int) =~= Seq::<char>::empty());
    assert(r@ + Seq::<char>::empty() =~= r@);
    r
}

/// `str::split` with a non-empty pattern: the pieces between non-overlapping
/// matches of `sep`, found left to right.
pub open spec fn split_spec(s: Seq<char>, sep: Seq<char>) -> Seq<Seq<char>>
    decreases s.len(),
{
    if sep.len() == 0 || s.len() == 0 {
        seq![s]
    } else if sep.is_prefix_of(s) {
        seq![Seq::<char>::empty()] + split_spec(s.skip(sep.len() as int), sep)
    } else {
        let r = split_spec(s.drop_first(), sep);
        r.update(0, seq![s[0]] + r[0])
    }
}

pub proof fn lemma_split_nonempty(s: Seq<char>, sep: Seq<char>)
    ensures
        split_spec(s, sep).len() >= 1,
    decreases s.len(),
{
    if sep.len() == 0 || s.len() == 0 {
    } else if sep.is_prefix_of(s) {
        lemma_split_nonempty(s.skip(sep.len() as int), sep);
    } else {
        lemma_split_nonempty(s.drop_first(), sep);
    }
}

/// The views of a sequence of character vectors.
pub open spec fn views(v: Seq<Vec<char>>) -> Seq<Seq<char>> {
    v.map_values(|x: Vec<char>| x@)
}

/// `cur` put in front of the first piece of `r`.
pub open spec fn prepend_first(cur: Seq<char>, r: Seq<Seq<char>>) -> Seq<Seq<char>> {
    r.update(0, cur + r[0])
}

/// `str::split` with a non-empty pattern.
pub fn split(s: &Vec<char>, sep: &Vec<char>) -> (r: Vec<Vec<char>>)
    requires
        sep@.len() > 0,
    ensures
        views(r@) == split_spec(s@, sep@),
        r@.len() >= 1,
{
    let n = s.len();
    let mut pieces: Vec<Vec<char>> = Vec::new();
    let mut cur: Vec<char> = Vec::new();
    let mut i: usize = 0;
    assert(s@.skip(0) =~= s@);
    proof {
        lemma_split_nonempty(s@, sep@);
        let r = split_spec(s@, sep@);
        assert(prepend_first(Seq::<char>::empty(), r) =~= r);
    }
    while i < n
        invariant
            n == s@.len(),
            i <= n,
            sep@.len() > 0,
            split_spec(s@, sep@) == views(pieces@) + prepend_first(
                cur@,
                split_spec(s@.skip(i as int), sep@),
            ),
        decreases n - i,
    {
        proof {
            lemma_occurs_prefix(s@, sep@, i as int);
        }
        let ghost rest = s@.skip(i as int);
        let ghost old_pieces = pieces@;
        let ghost old_cur = cur@;
        if occurs_at_exec(s, sep, i) {
            assert(rest.skip(sep@.len() as int) =~= s@.skip(i + sep@.len()));
            let ghost tail = split_spec(s@.skip(i + sep@.len()), sep@);
            proof {
                lemma_split_nonempty(s@.skip(i + sep@.len()), sep@);
            }
            let mut done: Vec<char> = Vec::new();
            std::mem::swap(&mut done, &mut cur);
            pieces.push(done);
            assert(views(pieces@) =~= views(old_pieces).push(old_cur));
            assert(prepend_first(old_cur, seq![Seq::<char>::empty()] + tail) =~= seq![old_cur]
                + tail);
            assert(prepend_first(Seq::<char>::empty(), tail) =~= tail);
            assert(views(old_pieces) + (seq![old_cur] + tail) =~= views(pieces@) + tail);
            i += sep.len();
        } else {
            assert(rest.drop_first() =~= s@.skip(i + 1));
            let ghost tail = split_spec(s@.skip(i + 1), sep@);
            proof {
                lemma_split_nonempty(s@.skip(i + 1), sep@);
            }
            cur.push(s[i]);
            assert(cur@ == old_cur.push(s@[i as int]));
            assert(old_cur + (seq![s@[i as int]] + tail[0]) =~= cur@ + tail[0]);
            assert(prepend_first(old_cur, prepend_first(seq![s@[i as int]], tail))
                =~= prepend_first(cur@, tail));
            i += 1;
        }
    }
    assert(s@.skip(n as int) =~= Seq::<char>::empty());
    let ghost old_pieces = pieces@;
    pieces.push(cur);
    assert(views(pieces@) =~= views(old_pieces) + prepend_first(
        pieces@.last()@,
        seq![Seq::<char>::empty()],
    ));
    pieces
}

/// `[..].join(sep)`: the pieces with `sep` between neighbours.
pub open spec fn join_spec(list: Seq<Seq<char>>, sep: Seq<char>) -> Seq<char>
    decreases list.len(),
{
    if list.len() == 0 {
        Seq::empty()
    } else if list.len() == 1 {
        list[0]
    } else {
        join_spec(list.drop_last(), sep) + sep + list.last()
    }
}

/// `[..].join(sep)`.
pub fn join(list: &Vec<Vec<char>>, sep: &Vec<char>) -> (r: Vec<char>)
    ensures
        r@ == join_spec(views(list@), sep@),
{
    let mut r: Vec<char> = Vec::new();
    let mut i: usize = 0;
    while i < list.len()
        invariant
            i <= list@.len(),
            r@ == join_spec(views(list@).take(i as int), sep@),
        decreases list@.len() - i,
    {
        let ghost t = views(list@).take(i + 1);
        assert(t.drop_last() =~= views(list@).take(i as int));
        if i > 0 {
            append(&mut r, sep);
        } else {
            assert(r@ + list@[0]@ =~= list@[0]@);
        }
        append(&mut r, &list[i]);
        i += 1;
    }
    assert(views(list@).take(list@.len() as int) =~= views(list@));
    r
}


/// Whether `x` is one of the strings of `list` (`[..].contains`).
pub fn member(list: &Vec<Vec<char>>, x: &Vec<char>) -> (r: bool)
    ensures
        r == views(list@).contains(x@),
{
    let mut i: usize = 0;
    while i < list.len()
        invariant
            i <= list@.len(),
            forall|k: int| 0 <= k < i ==> list@[k]@ != x@,
        decreases list@.len() - i,
    {
        if eq(&list[i], x) {
            assert(views(list@)[i as int] == x@);
            return true;
        }
        i += 1;
    }
    assert forall|k: int| 0 <= k < views(list@).len() implies views(list@)[k] != x@ by {}
    false
}


pub open spec fn is_digit(c: char) -> bool {
    '0' <= c && c <= '9'
}

/// The value of a string of decimal digits.
pub open spec fn digits_value(s: Seq<char>) -> int
    decreases s.len(),
{
    if s.len() == 0 {
        0
    } else {
        digits_value(s.drop_last()) * 10 + (s.last() as int - '0' as int)
    }
}

/// `s` without its leading sign, if it has one.
pub open spec fn unsigned_part(s: Seq<char>) -> Seq<char> {
    if s.len() > 0 && (s[0] == '-' || s[0] == '+') {
        s.drop_first()
    } else {
        s
    }
}

/// Every character of `s` is a decimal digit.
pub open spec fn all_digits(s: Seq<char>) -> bool {
    forall|k: int| 0 <= k < s.len() ==> is_digit(#[trigger] s[k])
}

/// `str::parse::<i32>`: an optional `+` or `-`, then at least one decimal
/// digit and nothing else, with a value that fits in an `i32`.
pub open spec fn parse_i32_spec(s: Seq<char>) -> Option<i32> {
    let neg = s.len() > 0 && s[0] == '-';
    let body = unsigned_part(s);
    if body.len() == 0 || !all_digits(body) {
        None
    } else {
        let v = if neg {
            -digits_value(body)
        } else {
            digits_value(body)
        };
        if i32::MIN <= v <= i32::MAX {
            Some(v as i32)
        } else {
            None
        }
    }
}

proof fn lemma_digits_value_grows(s: Seq<char>, k: int)
    requires
        0 <= k <= s.len(),
        forall|j: int| 0 <= j < s.len() ==> is_digit(#[trigger] s[j]),
    ensures
        0 <= digits_value(s.take(k)) <= digits_value(s),
    decreases s.len() - k,
{
    if k < s.len() {
        lemma_digits_value_grows(s, k + 1);
        assert(s.take(k + 1).drop_last() =~= s.take(k));
    } else {
        assert(s.take(k) =~= s);
        lemma_digits_nonneg(s);
    }
}

proof fn lemma_digits_nonneg(s: Seq<char>)
    requires
        forall|j: int| 0 <= j < s.len() ==> is_digit(#[trigger] s[j]),
    ensures
        0 <= digits_value(s),
    decreases s.len(),
{
    if s.len() > 0 {
        assert(forall|j: int| 0 <= j < s.drop_last().len() ==> s.drop_last()[j] == s[j]);
        lemma_digits_nonneg(s.drop_last());
    }
}

/// `str::parse::<i32>`.
pub fn parse_i32(s: &Vec<char>) -> (r: Option<i32>)
    ensures
        r == parse_i32_spec(s@),
{
    let n = s.len();
    let neg = n > 0 && s[0] == '-';
    let start: usize = if n > 0 && (s[0] == '-' || s[0] == '+') {
        1
    } else {
        0
    };
    let ghost body = unsigned_part(s@);
    assert(body =~= s@.skip(start as int));
    if start >= n {
        return None;
    }
    let mut acc: i64 = 0;
    let mut i: usize = start;
    while i < n
        invariant
            start <= i <= n,
            n == s@.len(),
            body == s@.skip(start as int),
            body == unsigned_part(s@),
            body.len() > 0,
            forall|k: int| 0 <= k < i - start ==> is_digit(#[trigger] body[k]),
            acc == digits_value(body.take(i - start)),
            0 <= acc <= 2147483648,
        decreases n - i,
    {
        let c = s[i];
        assert(body[i - start] == s@[i as int]);
        if !('0' <= c && c <= '9') {
            assert(!is_digit(body[i - start]));
            assert(!all_digits(body));
            return None;
        }
        let d = (c as u32 - '0' as u32) as i64;
        assert(body.take(i - start + 1).drop_last() =~= body.take(i - start));
        assert(body.take(i - start + 1).last() == c);
        let next = acc * 10 + d;
        assert(next == digits_value(body.take(i - start + 1)));
        if next > 2147483648 {
            proof {
                assert(forall|k: int| 0 <= k < i - start + 1 ==> is_digit(#[trigger] body[k]));
                if all_digits(body) {
                    lemma_digits_value_grows(body, i - start + 1);
                }
            }
            return None;
        }
        acc = next;
        i += 1;
    }
    assert(body.take(n - start) =~= body);
    let v: i64 = if neg {
        -acc
    } else {
        acc
    };
    if v > 2147483647 {
        return None;
    }
    Some(v as i32)
}

} // verus!
