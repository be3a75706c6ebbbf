//! Character-level text helpers shared by the rest of the library.

use vstd::prelude::*;

verus! {

/// Whether `c` has the Unicode `White_Space` property, the set that
/// `char::is_whitespace` tests: the controls U+0009 to U+000D, the space,
/// U+0085, the no-break space U+00A0, U+1680, the spaces U+2000 to U+200A,
/// the line and paragraph separators U+2028 and U+2029, U+202F, U+205F and
/// the ideographic space U+3000.
pub open spec fn unicode_whitespace(c: char) -> bool {
    let n = c as u32;
    ||| 0x9 <= n <= 0xd
    ||| n == 0x20
    ||| n == 0x85
    ||| n == 0xa0
    ||| n == 0x1680
    ||| 0x2000 <= n <= 0x200a
    ||| n == 0x2028
    ||| n == 0x2029
    ||| n == 0x202f
    ||| n == 0x205f
    ||| n == 0x3000
}

/// Whether `c` is whitespace in the sense of `unicode_whitespace`.
pub fn is_unicode_whitespace(c: char) -> (r: bool)
    ensures
        r == unicode_whitespace(c),
{
    let n: u32 = c as u32;
    (0x9 <= n && n <= 0xd) || n == 0x20 || n == 0x85 || n == 0xa0 || n == 0x1680
        || (0x2000 <= n && n <= 0x200a) || n == 0x2028 || n == 0x2029 || n == 0x202f
        || n == 0x205f || n == 0x3000
}

/// Collects the characters of `s` into a vector.
pub fn chars_of(s: &str) -> (v: Vec<char>)
    ensures
        v@ == s@,
{
    let mut v: Vec<char> = Vec::new();
    for c in it: s.chars()
        invariant
            v@ == it.seq().take(it.index()),
            it.seq() == s@,
    {
        v.push(c);
    }
    v
}

/// Builds a `String` from characters with `String::from_iter`; by contract the
/// string holds exactly those characters, in order.
#[verifier::external_body]
pub(crate) fn string_from_chars(chars: &Vec<char>) -> (s: String)
    ensures
        s@ == chars@,
{
    String::from_iter(chars.iter())
}

/// Whether every character of `s` is whitespace (true for the empty string).
pub open spec fn all_whitespace(s: Seq<char>) -> bool {
    forall|i: int| 0 <= i < s.len() ==> unicode_whitespace(#[trigger] s[i])
}

/// Whether `s` is empty or made only of whitespace, that is whether
/// `s.trim().is_empty()`.
pub fn is_blank(s: &str) -> (b: bool)
    ensures
        b == all_whitespace(s@),
{
    let cs = chars_of(s);
    let mut i: usize = 0;
    while i < cs.len()
        invariant
            cs@ == s@,
            i <= cs.len(),
            forall|j: int| 0 <= j < i ==> unicode_whitespace(#[trigger] cs@[j]),
        decreases cs.len() - i,
    {
        if !is_unicode_whitespace(cs[i]) {
            return false;
        }
        i = i + 1;
    }
    true
}

} // verus!
verus! {

/// The views of a sequence of strings.
pub open spec fn views(v: Seq<String>) -> Seq<Seq<char>> {
    v.map_values(|s: String| s@)
}

/// The view of an optional string.
pub open spec fn opt_view(o: Option<String>) -> Option<Seq<char>> {
    match o {
        Some(s) => Some(s@),
        None => None,
    }
}

/// `value` when it holds something other than whitespace, `None` otherwise.
pub open spec fn non_blank_spec(value: Option<Seq<char>>) -> Option<Seq<char>> {
    match value {
        Some(v) => if all_whitespace(v) { None } else { Some(v) },
        None => None,
    }
}

/// Keeps a configured value only when it is not blank (the treatment every
/// environment setting gets).
pub fn non_blank(value: Option<String>) -> (r: Option<String>)
    ensures
        opt_view(r) == non_blank_spec(opt_view(value)),
{
    match value {
        Some(v) => {
            if is_blank(v.as_str()) {
                None
            } else {
                Some(v)
            }
        },
        None => None,
    }
}

/// Copies the first `n` characters of `cs` into a `String`.
fn prefix_string(cs: &Vec<char>, n: usize) -> (s: String)
    requires
        n <= cs.len(),
    ensures
        s@ == cs@.take(n as int),
{
    let mut out: Vec<char> = Vec::new();
    let mut i: usize = 0;
    while i < n
        invariant
            n <= cs.len(),
            i <= n,
            out@ == cs@.take(i as int),
        decreases n - i,
    {
        out.push(cs[i]);
        i = i + 1;
        assert(out@ =~= cs@.take(i as int));
    }
    string_from_chars(&out)
}

/// `s` without its trailing whitespace, as `str::trim_end` gives it.
pub open spec fn trim_end_spec(s: Seq<char>) -> Seq<char>
    decreases s.len(),
{
    if s.len() > 0 && unicode_whitespace(s.last()) {
        trim_end_spec(s.drop_last())
    } else {
        s
    }
}

/// Removes the trailing whitespace of `s`.
pub fn trim_end(s: &str) -> (r: String)
    ensures
        r@ == trim_end_spec(s@),
{
    let cs = chars_of(s);
    let mut n: usize = cs.len();
    assert(cs@.take(n as int) =~= s@);
    while n > 0 && is_unicode_whitespace(cs[n - 1])
        invariant
            cs@ == s@,
            n <= cs.len(),
            trim_end_spec(s@) == trim_end_spec(cs@.take(n as int)),
        decreases n,
    {
        assert(cs@.take(n as int).drop_last() =~= cs@.take(n - 1));
        n = n - 1;
    }
    prefix_string(&cs, n)
}

/// The whitespace-separated words of `s`, as `str::split_whitespace` yields them.
pub open spec fn words(s: Seq<char>) -> Seq<Seq<char>>
    decreases s.len(),
{
    if s.len() == 0 {
        seq![]
    } else {
        let prev = words(s.drop_last());
        let c = s.last();
        if unicode_whitespace(c) {
            prev
        } else if s.len() > 1 && !unicode_whitespace(s[s.len() - 2]) {
            prev.update(prev.len() - 1, prev.last().push(c))
        } else {
            prev.push(seq![c])
        }
    }
}

/// Splits `s` into its whitespace-separated words.
pub fn split_whitespace(s: &str) -> (ws: Vec<String>)
    ensures
        views(ws@) == words(s@),
{
    let cs = chars_of(s);
    let mut done: Vec<String> = Vec::new();
    let mut cur: Vec<char> = Vec::new();
    for i in 0..cs.len()
        invariant
            cs@ == s@,
            words(cs@.take(i as int)) == views(done@) + (if cur@.len() > 0 {
                seq![cur@]
            } else {
                Seq::<Seq<char>>::empty()
            }),
            cur@.len() > 0 ==> (i > 0 && !unicode_whitespace(cs@[i - 1])),
            cur@.len() == 0 ==> (i == 0 || unicode_whitespace(cs@[i - 1])),
    {
        let c = cs[i];
        let ghost prefix = cs@.take(i + 1);
        assert(prefix.drop_last() =~= cs@.take(i as int));
        assert(prefix.last() == c);
        let ghost old_done = done@;
        let ghost old_cur = cur@;
        if is_unicode_whitespace(c) {
            assert(words(prefix) == words(cs@.take(i as int)));
            if cur.len() > 0 {
                let w = string_from_chars(&cur);
                done.push(w);
                cur = Vec::new();
                assert(views(done@) =~= views(old_done).push(w@));
                assert(words(prefix) =~= views(done@) + Seq::<Seq<char>>::empty());
            }
        } else {
            if cur.len() > 0 {
                assert(prefix[prefix.len() - 2] == cs@[i - 1]);
                let ghost prev = words(cs@.take(i as int));
                assert(prev =~= views(old_done) + seq![old_cur]);
                assert(words(prefix) == prev.update(prev.len() - 1, prev.last().push(c)));
                cur.push(c);
                assert(words(prefix) =~= views(done@) + seq![cur@]);
            } else {
                let ghost prev = words(cs@.take(i as int));
                assert(prev =~= views(old_done));
                assert(words(prefix) == prev.push(seq![c]));
                cur.push(c);
                assert(cur@ =~= seq![c]);
                assert(words(prefix) =~= views(done@) + seq![cur@]);
            }
        }
    }
    assert(cs@.take(cs.len() as int) =~= s@);
    if cur.len() > 0 {
        let ghost old_done = done@;
        let w = string_from_chars(&cur);
        done.push(w);
        assert(views(done@) =~= views(old_done).push(w@));
    } else {
        assert(views(done@) =~= views(done@) + Seq::<Seq<char>>::empty());
    }
    done
}

/// The pieces of `s` between occurrences of `sep`, empty pieces included, as
/// `str::split(sep)` yields them.
pub open spec fn pieces(s: Seq<char>, sep: char) -> Seq<Seq<char>>
    decreases s.len(),
{
    if s.len() == 0 {
        seq![Seq::<char>::empty()]
    } else {
        let prev = pieces(s.drop_last(), sep);
        if s.last() == sep {
            prev.push(Seq::<char>::empty())
        } else {
            prev.update(prev.len() - 1, prev.last().push(s.last()))
        }
    }
}

/// Splits `s` at every `sep`, keeping empty pieces.
pub fn split_at_char(s: &str, sep: char) -> (ps: Vec<String>)
    ensures
        views(ps@) == pieces(s@, sep),
{
    let cs = chars_of(s);
    let mut done: Vec<String> = Vec::new();
    let mut cur: Vec<char> = Vec::new();
    assert(cs@.take(0) =~= Seq::<char>::empty());
    assert(views(done@).push(cur@) =~= seq![Seq::<char>::empty()]);
    for i in 0..cs.len()
        invariant
            cs@ == s@,
            pieces(cs@.take(i as int), sep) == views(done@).push(cur@),
    {
        let c = cs[i];
        let ghost prefix = cs@.take(i + 1);
        assert(prefix.drop_last() =~= cs@.take(i as int));
        assert(prefix.last() == c);
        let ghost old_done = done@;
        if c == sep {
            let w = string_from_chars(&cur);
            done.push(w);
            cur = Vec::new();
            assert(views(done@) =~= views(old_done).push(w@));
        } else {
            cur.push(c);
        }
        assert(pieces(prefix, sep) =~= views(done@).push(cur@));
    }
    assert(cs@.take(cs.len() as int) =~= s@);
    let ghost old_done = done@;
    let w = string_from_chars(&cur);
    done.push(w);
    assert(views(done@) =~= views(old_done).push(w@));
    done
}

/// `s` with every `target` character replaced by `with`, as `str::replace` gives it.
pub open spec fn replace_char_spec(s: Seq<char>, target: char, with: Seq<char>) -> Seq<char>
    decreases s.len(),
{
    if s.len() == 0 {
        Seq::<char>::empty()
    } else {
        replace_char_spec(s.drop_last(), target, with) + (if s.last() == target {
            with
        } else {
            seq![s.last()]
        })
    }
}

/// Replaces every `target` character of `s` with `with`.
pub fn replace_char(s: &str, target: char, with: &str) -> (r: String)
    ensures
        r@ == replace_char_spec(s@, target, with@),
{
    let cs = chars_of(s);
    let ws = chars_of(with);
    let mut out: Vec<char> = Vec::new();
    assert(cs@.take(0) =~= Seq::<char>::empty());
    for i in 0..cs.len()
        invariant
            cs@ == s@,
            ws@ == with@,
            out@ == replace_char_spec(cs@.take(i as int), target, with@),
    {
        let ghost prefix = cs@.take(i + 1);
        assert(prefix.drop_last() =~= cs@.take(i as int));
        let ghost before = out@;
        let c = cs[i];
        if c == target {
            for j in 0..ws.len()
                invariant
                    ws@ == with@,
                    out@ == before + ws@.take(j as int),
            {
                out.push(ws[j]);
                assert(out@ =~= before + ws@.take(j + 1));
            }
            assert(ws@.take(ws.len() as int) =~= ws@);
        } else {
            out.push(c);
            assert(out@ =~= before + seq![c]);
        }
    }
    assert(cs@.take(cs.len() as int) =~= s@);
    string_from_chars(&out)
}

/// The pieces of `parts` joined with `sep` between them, as `[String]::join` gives it.
pub open spec fn joined(parts: Seq<Seq<char>>, sep: Seq<char>) -> Seq<char>
    decreases parts.len(),
{
    if parts.len() == 0 {
        Seq::<char>::empty()
    } else if parts.len() == 1 {
        parts[0]
    } else {
        joined(parts.drop_last(), sep) + sep + parts.last()
    }
}

/// Joins `parts` with `sep` between consecutive parts.
pub fn join_with(parts: &Vec<String>, sep: &str) -> (r: String)
    ensures
        r@ == joined(views(parts@), sep@),
{
    let mut out = String::new();
    let ghost all = views(parts@);
    assert(all.take(0) =~= Seq::<Seq<char>>::empty());
    for i in 0..parts.len()
        invariant
            all == views(parts@),
            out@ == joined(all.take(i as int), sep@),
    {
        assert(all.take(i + 1).drop_last() =~= all.take(i as int));
        if i != 0 {
            out.append(sep);
        }
        out.append(parts[i].as_str());
        if i == 0 {
            assert(all.take(1) =~= seq![parts@[0]@]);
        }
    }
    assert(all.take(parts.len() as int) =~= all);
    out
}

/// The decimal digit character for `d < 10`.
pub open spec fn digit_char(d: nat) -> char {
    if d == 0 {
        '0'
    } else if d == 1 {
        '1'
    } else if d == 2 {
        '2'
    } else if d == 3 {
        '3'
    } else if d == 4 {
        '4'
    } else if d == 5 {
        '5'
    } else if d == 6 {
        '6'
    } else if d == 7 {
        '7'
    } else if d == 8 {
        '8'
    } else {
        '9'
    }
}

/// The decimal representation of `n`, without leading zeros.
pub open spec fn decimal(n: nat) -> Seq<char>
    decreases n,
{
    if n < 10 {
        seq![digit_char(n)]
    } else {
        decimal(n / 10).push(digit_char(n % 10))
    }
}

/// The decimal representation of a signed integer: a `-` before the digits of
/// its magnitude when it is negative.
pub open spec fn signed_decimal(i: int) -> Seq<char> {
    if i < 0 {
        seq!['-'] + decimal((-i) as nat)
    } else {
        decimal(i as nat)
    }
}

fn digit(d: u64) -> (c: char)
    requires
        d < 10,
    ensures
        c == digit_char(d as nat),
{
    if d == 0 {
        '0'
    } else if d == 1 {
        '1'
    } else if d == 2 {
        '2'
    } else if d == 3 {
        '3'
    } else if d == 4 {
        '4'
    } else if d == 5 {
        '5'
    } else if d == 6 {
        '6'
    } else if d == 7 {
        '7'
    } else if d == 8 {
        '8'
    } else {
        '9'
    }
}

fn push_decimal(n: u64, out: &mut Vec<char>)
    ensures
        final(out)@ == old(out)@ + decimal(n as nat),
    decreases n,
{
    if n >= 10 {
        push_decimal(n / 10, out);
    }
    out.push(digit(n % 10));
}

/// The decimal text of `n`, as `n.to_string()` gives it.
pub fn u64_text(n: u64) -> (s: String)
    ensures
        s@ == decimal(n as nat),
{
    let mut out: Vec<char> = Vec::new();
    push_decimal(n, &mut out);
    assert(out@ =~= decimal(n as nat));
    string_from_chars(&out)
}

/// The decimal text of `n`, as `n.to_string()` gives it.
pub fn i32_text(n: i32) -> (s: String)
    ensures
        s@ == signed_decimal(n as int),
{
    let mut out: Vec<char> = Vec::new();
    if n < 0 {
        out.push('-');
        let magnitude: i64 = -(n as i64);
        push_decimal(magnitude as u64, &mut out);
    } else {
        push_decimal(n as u64, &mut out);
        assert(out@ =~= decimal(n as nat));
    }
    string_from_chars(&out)
}

/// Whether `c` is one of the ASCII digits `0`..=`9`.
pub open spec fn is_digit(c: char) -> bool {
    '0' <= c <= '9'
}

/// The value of the ASCII digit `c`.
pub open spec fn digit_value(c: char) -> nat {
    ((c as int) - ('0' as int)) as nat
}

/// The value of a sequence of decimal digits, most significant first.
pub open spec fn digits_value(s: Seq<char>) -> nat
    decreases s.len(),
{
    if s.len() == 0 {
        0
    } else {
        digits_value(s.drop_last()) * 10 + digit_value(s.last())
    }
}

/// `s` without one leading `+`.
pub open spec fn unsigned_digits(s: Seq<char>) -> Seq<char> {
    if s.len() > 0 && s[0] == '+' {
        s.drop_first()
    } else {
        s
    }
}

/// What `str::parse::<u64>` accepts: an optional `+` followed by at least
/// one ASCII digit, of a value that fits in a `u64`.
pub open spec fn parsed_u64(s: Seq<char>) -> Option<u64> {
    let body = unsigned_digits(s);
    if body.len() > 0 && (forall|i: int| 0 <= i < body.len() ==> is_digit(#[trigger] body[i]))
        && digits_value(body) <= u64::MAX {
        Some(digits_value(body) as u64)
    } else {
        None
    }
}

fn digit_number(c: char) -> (d: u64)
    requires
        is_digit(c),
    ensures
        d == digit_value(c),
        d < 10,
{
    (c as u32 - '0' as u32) as u64
}

proof fn lemma_digits_value_prefix(s: Seq<char>, k: int)
    requires
        0 <= k <= s.len(),
    ensures
        digits_value(s.take(k)) <= digits_value(s),
    decreases s.len(),
{
    if k < s.len() {
        assert(s.drop_last().take(k) =~= s.take(k));
        lemma_digits_value_prefix(s.drop_last(), k);
    } else {
        assert(s.take(k) =~= s);
    }
}

/// Parses a decimal `u64` the way `str::parse::<u64>` does.
pub fn parse_u64(s: &str) -> (r: Option<u64>)
    ensures
        r == parsed_u64(s@),
{
    let cs = chars_of(s);
    let start: usize = if cs.len() > 0 && cs[0] == '+' {
        1
    } else {
        0
    };
    let ghost body = unsigned_digits(s@);
    assert(body =~= cs@.skip(start as int));
    if start == cs.len() {
        return None;
    }
    let mut acc: u64 = 0;
    let mut i: usize = start;
    assert(body.take(0) =~= Seq::<char>::empty());
    while i < cs.len()
        invariant
            cs@ == s@,
            start <= i <= cs.len(),
            body == cs@.skip(start as int),
            body == unsigned_digits(s@),
            forall|j: int| 0 <= j < i - start ==> is_digit(#[trigger] body[j]),
            acc as nat == digits_value(body.take(i - start)),
        decreases cs.len() - i,
    {
        let c = cs[i];
        assert(body[i - start] == c);
        if c < '0' || c > '9' {
            assert(!is_digit(body[i - start]));
            return None;
        }
        let d = digit_number(c);
        assert(body.take(i - start + 1).drop_last() =~= body.take(i - start));
        let next = match acc.checked_mul(10) {
            Some(m) => m.checked_add(d),
            None => None,
        };
        match next {
            Some(v) => {
                acc = v;
            },
            None => {
                proof {
                    let k = i - start + 1;
                    assert(body.take(k).last() == c);
                    assert(digits_value(body.take(k)) == acc * 10 + d);
                    assert(digits_value(body.take(k)) > u64::MAX);
                    lemma_digits_value_prefix(body, k);
                }
                return None;
            },
        }
        i = i + 1;
    }
    assert(body.take(i - start) =~= body);
    Some(acc)
}

} // verus!

verus! {

/// Whether `c` occurs in `s`.
pub fn contains_char(s: &str, c: char) -> (b: bool)
    ensures
        b == s@.contains(c),
{
    let cs = chars_of(s);
    for i in 0..cs.len()
        invariant
            cs@ == s@,
            forall|j: int| 0 <= j < i ==> cs@[j] != c,
    {
        if cs[i] == c {
            assert(s@[i as int] == c);
            return true;
        }
    }
    false
}

} // verus!

verus! {

/// Each word of a text is non-empty and holds no whitespace, and a text that
/// is not all whitespace has at least one word.
pub proof fn law_words_shape(s: Seq<char>)
    ensures
        forall|i: int| 0 <= i < words(s).len() ==> (#[trigger] words(s)[i]).len() > 0,
        forall|i: int, k: int|
            0 <= i < words(s).len() && 0 <= k < words(s)[i].len() ==> !unicode_whitespace(
                #[trigger] words(s)[i][k],
            ),
        !all_whitespace(s) ==> words(s).len() > 0,
    decreases s.len(),
{
    if s.len() > 0 {
        let t = s.drop_last();
        law_words_shape(t);
        let prev = words(t);
        let c = s.last();
        if !unicode_whitespace(c) && s.len() > 1 && !unicode_whitespace(s[s.len() - 2]) {
            assert(t[t.len() - 1] == s[s.len() - 2]);
            assert(!all_whitespace(t));
            let w = prev.last().push(c);
            let u = prev.update(prev.len() - 1, w);
            assert forall|i: int, k: int|
                0 <= i < u.len() && 0 <= k < u[i].len() implies !unicode_whitespace(
                #[trigger] u[i][k],
            ) by {
                if i == prev.len() - 1 {
                    if k < prev.last().len() {
                        assert(u[i][k] == prev[i][k]);
                    }
                }
            }
        } else if !unicode_whitespace(c) {
            let u = prev.push(seq![c]);
            assert forall|i: int, k: int|
                0 <= i < u.len() && 0 <= k < u[i].len() implies !unicode_whitespace(
                #[trigger] u[i][k],
            ) by {
                if i < prev.len() {
                    assert(u[i] == prev[i]);
                }
            }
        } else {
            if !all_whitespace(s) {
                let j = choose|j: int| 0 <= j < s.len() && !unicode_whitespace(#[trigger] s[j]);
                assert(j < s.len() - 1);
                assert(t[j] == s[j]);
            }
        }
    }
}

} // verus!
