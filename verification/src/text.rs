//! Text as sequences of characters: searching, splitting, joining, trimming,
//! replacing, ordering, and the decimal writing of naturals.
use vstd::prelude::*;
use vstd::string::StringExecFns;

verus! {

// ---------------------------------------------------------------------------
// Characters and whole texts
// ---------------------------------------------------------------------------

/// Appends one character by `String::push`, which the standard library
/// documents as appending the given character to the end of the string.
#[verifier::external_body]
pub(crate) fn push_char(text: &mut String, c: char)
    ensures
        final(text)@ == old(text)@.push(c),
{
    text.push(c)
}

/// The characters of a text, in order.
pub fn to_chars(text: &str) -> (r: Vec<char>)
    ensures
        r@ == text@,
{
    let mut chars: Vec<char> = Vec::new();
    for c in it: text.chars()
        invariant
            it.seq() == text@,
            chars@ == text@.take(it.index()),
    {
        chars.push(c);
    }
    proof {
        assert(text@.take(text@.len() as int) =~= text@);
    }
    chars
}

/// The text made of the characters from `from` up to, not counting, `to`.
pub fn slice_text(chars: &Vec<char>, from: usize, to: usize) -> (r: String)
    requires
        from <= to <= chars@.len(),
    ensures
        r@ == chars@.subrange(from as int, to as int),
{
    let mut out = String::new();
    let mut i: usize = from;
    while i < to
        invariant
            from <= i <= to <= chars@.len(),
            out@ == chars@.subrange(from as int, i as int),
        decreases to - i,
    {
        push_char(&mut out, chars[i]);
        proof {
            assert(chars@.subrange(from as int, i as int).push(chars@[i as int])
                =~= chars@.subrange(from as int, i + 1));
        }
        i = i + 1;
    }
    out
}

/// Whether two texts hold the same characters.
pub fn text_eq(a: &str, b: &str) -> (r: bool)
    ensures
        r == (a@ == b@),
{
    let x = to_chars(a);
    let y = to_chars(b);
    if x.len() != y.len() {
        return false;
    }
    let mut i: usize = 0;
    while i < x.len()
        invariant
            x@.len() == y@.len(),
            i <= x@.len(),
            forall|j: int| 0 <= j < i ==> x@[j] == y@[j],
            x@ == a@,
            y@ == b@,
        decreases x@.len() - i,
    {
        if x[i] != y[i] {
            return false;
        }
        i = i + 1;
    }
    proof {
        assert(x@ =~= y@);
    }
    true
}

/// Two texts, one after the other.
pub fn cat2(a: &str, b: &str) -> (r: String)
    ensures
        r@ == a@ + b@,
{
    let mut out = a.to_owned();
    out.append(b);
    out
}

/// Three texts, one after the other.
pub fn cat3(a: &str, b: &str, c: &str) -> (r: String)
    ensures
        r@ == a@ + b@ + c@,
{
    let mut out = a.to_owned();
    out.append(b);
    out.append(c);
    out
}

/// Four texts, one after the other.
pub fn cat4(a: &str, b: &str, c: &str, d: &str) -> (r: String)
    ensures
        r@ == a@ + b@ + c@ + d@,
{
    let mut out = a.to_owned();
    out.append(b);
    out.append(c);
    out.append(d);
    out
}

/// Five texts, one after the other.
pub fn cat5(a: &str, b: &str, c: &str, d: &str, e: &str) -> (r: String)
    ensures
        r@ == a@ + b@ + c@ + d@ + e@,
{
    let mut out = a.to_owned();
    out.append(b);
    out.append(c);
    out.append(d);
    out.append(e);
    out
}

// ---------------------------------------------------------------------------
// Order
// ---------------------------------------------------------------------------

/// Whether `a` comes strictly before `b` in the lexicographic order of code points.
pub open spec fn text_less(a: Seq<char>, b: Seq<char>) -> bool
    decreases a.len(),
{
    if b.len() == 0 {
        false
    } else if a.len() == 0 {
        true
    } else if a[0] != b[0] {
        a[0] < b[0]
    } else {
        text_less(a.skip(1), b.skip(1))
    }
}

/// Decides the lexicographic order of two texts.
pub fn less_text(a: &str, b: &str) -> (r: bool)
    ensures
        r == text_less(a@, b@),
{
    let x = to_chars(a);
    let y = to_chars(b);
    let mut i: usize = 0;
    proof {
        assert(x@.skip(0) =~= x@);
        assert(y@.skip(0) =~= y@);
    }
    while i < x.len() && i < y.len()
        invariant
            i <= x@.len(),
            i <= y@.len(),
            text_less(x@, y@) == text_less(x@.skip(i as int), y@.skip(i as int)),
            x@ == a@,
            y@ == b@,
        decreases x@.len() - i,
    {
        if x[i] != y[i] {
            return x[i] < y[i];
        }
        proof {
            assert(x@.skip(i as int).skip(1) =~= x@.skip(i + 1));
            assert(y@.skip(i as int).skip(1) =~= y@.skip(i + 1));
        }
        i = i + 1;
    }
    i < y.len()
}

/// No text comes before itself.
pub proof fn text_less_irreflexive(a: Seq<char>)
    ensures
        !text_less(a, a),
    decreases a.len(),
{
    if a.len() > 0 {
        text_less_irreflexive(a.skip(1));
    }
}

/// The order of texts is transitive.
pub proof fn text_less_transitive(a: Seq<char>, b: Seq<char>, c: Seq<char>)
    requires
        text_less(a, b),
        text_less(b, c),
    ensures
        text_less(a, c),
    decreases a.len(),
{
    if a.len() > 0 && b.len() > 0 && c.len() > 0 && a[0] == b[0] && b[0] == c[0] {
        text_less_transitive(a.skip(1), b.skip(1), c.skip(1));
    }
}

/// Of two different texts, one comes before the other.
pub proof fn text_less_total(a: Seq<char>, b: Seq<char>)
    ensures
        a == b || text_less(a, b) || text_less(b, a),
    decreases a.len(),
{
    if a.len() == 0 {
        if b.len() == 0 {
            assert(a =~= b);
        }
    } else if b.len() > 0 && a[0] == b[0] {
        text_less_total(a.skip(1), b.skip(1));
        if a.skip(1) == b.skip(1) {
            assert forall|i: int| 0 <= i < a.len() implies a[i] == b[i] by {
                if i > 0 {
                    assert(a.skip(1)[i - 1] == b.skip(1)[i - 1]);
                }
            }
            assert(a.len() == a.skip(1).len() + 1);
            assert(b.len() == b.skip(1).len() + 1);
            assert(a =~= b);
        }
    }
}

// ---------------------------------------------------------------------------
// Splitting and joining
// ---------------------------------------------------------------------------

/// The pieces of a text between the occurrences of a separator: one more than
/// the separator occurs.
pub open spec fn split_text(s: Seq<char>, sep: char) -> Seq<Seq<char>>
    decreases s.len(),
{
    if s.len() == 0 {
        seq![Seq::<char>::empty()]
    } else {
        let front = split_text(s.drop_last(), sep);
        if s.last() == sep {
            front.push(Seq::<char>::empty())
        } else {
            front.drop_last().push(front.last().push(s.last()))
        }
    }
}

/// The views of a list of texts.
pub open spec fn texts(v: Seq<String>) -> Seq<Seq<char>> {
    Seq::new(v.len(), |i: int| v[i]@)
}

/// Splits a text at every occurrence of a separator.
pub fn split(s: &str, sep: char) -> (r: Vec<String>)
    ensures
        texts(r@) == split_text(s@, sep),
        r@.len() >= 1,
{
    let chars = to_chars(s);
    let mut done: Vec<String> = Vec::new();
    let mut current = String::new();
    let mut i: usize = 0;
    proof {
        assert(chars@.take(0) =~= Seq::<char>::empty());
        assert(texts(done@).push(current@) =~= seq![Seq::<char>::empty()]);
    }
    while i < chars.len()
        invariant
            i <= chars@.len(),
            chars@ == s@,
            texts(done@).push(current@) == split_text(chars@.take(i as int), sep),
        decreases chars@.len() - i,
    {
        let c = chars[i];
        proof {
            assert(chars@.take(i + 1).drop_last() =~= chars@.take(i as int));
            assert(chars@.take(i + 1).last() == c);
        }
        let ghost before = texts(done@);
        let ghost piece = current@;
        if c == sep {
            done.push(current);
            current = String::new();
            proof {
                assert(texts(done@) =~= before.push(piece));
            }
        } else {
            push_char(&mut current, c);
            proof {
                assert(before.push(piece).drop_last() =~= before);
            }
        }
        i = i + 1;
    }
    let ghost before = texts(done@);
    let ghost piece = current@;
    done.push(current);
    proof {
        assert(chars@.take(i as int) =~= chars@);
        assert(texts(done@) =~= before.push(piece));
    }
    done
}

/// The texts in order, with a separator between neighbours.
pub open spec fn join_text(parts: Seq<Seq<char>>, sep: Seq<char>) -> Seq<char>
    decreases parts.len(),
{
    if parts.len() == 0 {
        Seq::<char>::empty()
    } else if parts.len() == 1 {
        parts[0]
    } else {
        join_text(parts.drop_last(), sep) + sep + parts.last()
    }
}

/// Joins texts with a separator between neighbours.
pub fn join(parts: &Vec<String>, sep: &str) -> (r: String)
    ensures
        r@ == join_text(texts(parts@), sep@),
{
    let mut out = String::new();
    let mut i: usize = 0;
    proof {
        assert(texts(parts@).take(0) =~= Seq::<Seq<char>>::empty());
    }
    while i < parts.len()
        invariant
            i <= parts@.len(),
            out@ == join_text(texts(parts@).take(i as int), sep@),
        decreases parts@.len() - i,
    {
        proof {
            let all = texts(parts@);
            assert(all.take(i + 1).drop_last() =~= all.take(i as int));
            assert(all.take(i + 1).last() == parts@[i as int]@);
            if i == 0 {
                assert(Seq::<char>::empty() + parts@[0]@ =~= parts@[0]@);
            }
        }
        if i > 0 {
            out.append(sep);
        }
        out.append(parts[i].as_str());
        i = i + 1;
    }
    proof {
        assert(texts(parts@).take(i as int) =~= texts(parts@));
    }
    out
}

/// Splitting leaves at least one piece, and joining the pieces with the
/// separator gives the text back.
pub proof fn join_undoes_split(s: Seq<char>, sep: char)
    ensures
        split_text(s, sep).len() >= 1,
        join_text(split_text(s, sep), seq![sep]) == s,
    decreases s.len(),
{
    if s.len() == 0 {
        assert(split_text(s, sep)[0] =~= s);
    } else {
        join_undoes_split(s.drop_last(), sep);
        let front = split_text(s.drop_last(), sep);
        let parts = split_text(s, sep);
        if s.last() == sep {
            assert(parts.drop_last() =~= front);
            assert(s.drop_last() + seq![sep] + Seq::<char>::empty() =~= s);
        } else {
            assert(parts.last() == front.last().push(s.last()));
            assert(parts.drop_last() =~= front.drop_last());
            if front.len() == 1 {
                assert(parts[0] =~= front[0].push(s.last()));
                assert(front[0].push(s.last()) =~= s);
            } else {
                let head = join_text(front.drop_last(), seq![sep]) + seq![sep];
                assert(head + front.last().push(s.last()) =~= (head + front.last()).push(s.last()));
                assert(s.drop_last().push(s.last()) =~= s);
            }
        }
    }
}

// ---------------------------------------------------------------------------
// Searching and replacing
// ---------------------------------------------------------------------------

/// Whether `s` begins with `p`.
pub open spec fn has_prefix(s: Seq<char>, p: Seq<char>) -> bool {
    p.len() <= s.len() && s.take(p.len() as int) == p
}

/// Whether `p` stands in `s` at position `at`.
pub open spec fn occurs_at(s: Seq<char>, p: Seq<char>, at: int) -> bool {
    0 <= at && at + p.len() <= s.len() && s.subrange(at, at + p.len()) == p
}

/// Whether `p` occurs anywhere in `s`.
pub open spec fn contains_text(s: Seq<char>, p: Seq<char>) -> bool {
    exists|at: int| occurs_at(s, p, at)
}

fn chars_occur_at(s: &Vec<char>, p: &Vec<char>, at: usize) -> (r: bool)
    requires
        at <= s@.len(),
    ensures
        r == occurs_at(s@, p@, at as int),
{
    if p.len() > s.len() - at {
        return false;
    }
    let n: usize = s.len();
    let mut j: usize = 0;
    while j < p.len()
        invariant
            j <= p@.len(),
            n == s@.len(),
            at + p@.len() <= n,
            forall|k: int| 0 <= k < j ==> s@[at + k] == p@[k],
        decreases p@.len() - j,
    {
        if s[at + j] != p[j] {
            proof {
                assert(s@.subrange(at as int, at + p@.len())[j as int] != p@[j as int]);
            }
            return false;
        }
        j = j + 1;
    }
    proof {
        assert(s@.subrange(at as int, at + p@.len()) =~= p@);
    }
    true
}

/// Decides whether a text begins with another.
pub fn starts_with(s: &str, p: &str) -> (r: bool)
    ensures
        r == has_prefix(s@, p@),
{
    let a = to_chars(s);
    let b = to_chars(p);
    let r = chars_occur_at(&a, &b, 0);
    proof {
        if b@.len() <= a@.len() {
            assert(a@.subrange(0, b@.len() as int) =~= a@.take(b@.len() as int));
        }
    }
    r
}

/// What follows a prefix, where the text has it.
pub fn strip_prefix(s: &str, p: &str) -> (r: Option<String>)
    ensures
        match r {
            Some(rest) => has_prefix(s@, p@) && rest@ == s@.skip(p@.len() as int),
            None => !has_prefix(s@, p@),
        },
{
    if starts_with(s, p) {
        let a = to_chars(s);
        let b = to_chars(p);
        let rest = slice_text(&a, b.len(), a.len());
        proof {
            assert(a@.subrange(b@.len() as int, a@.len() as int) =~= a@.skip(b@.len() as int));
        }
        Some(rest)
    } else {
        None
    }
}

/// Decides whether a text occurs in another.
pub fn contains(s: &str, p: &str) -> (r: bool)
    ensures
        r == contains_text(s@, p@),
{
    let a = to_chars(s);
    let b = to_chars(p);
    let mut i: usize = 0;
    while i <= a.len()
        invariant
            i <= a@.len() + 1,
            a@ == s@,
            b@ == p@,
            forall|at: int| 0 <= at < i ==> !occurs_at(a@, b@, at),
        decreases a@.len() + 1 - i,
    {
        if chars_occur_at(&a, &b, i) {
            return true;
        }
        if i == a.len() {
            return false;
        }
        i = i + 1;
    }
    false
}

/// `s` with every occurrence of `p` replaced by `r`, from left to right and
/// without overlaps; `p` is not empty.
pub open spec fn replace_text(s: Seq<char>, p: Seq<char>, r: Seq<char>) -> Seq<char>
    decreases s.len(),
{
    if s.len() == 0 || p.len() == 0 {
        s
    } else if occurs_at(s, p, 0) {
        r + replace_text(s.skip(p.len() as int), p, r)
    } else {
        seq![s[0]] + replace_text(s.skip(1), p, r)
    }
}

proof fn occurs_at_skip(s: Seq<char>, p: Seq<char>, i: int)
    requires
        0 <= i <= s.len(),
    ensures
        occurs_at(s, p, i) == occurs_at(s.skip(i), p, 0),
{
    if i + p.len() <= s.len() {
        assert(s.subrange(i, i + p.len()) =~= s.skip(i).subrange(0, p.len() as int));
    }
}

/// Replaces every occurrence of a text that is not empty.
pub fn replace(s: &str, p: &str, with: &str) -> (out: String)
    requires
        p@.len() > 0,
    ensures
        out@ == replace_text(s@, p@, with@),
{
    let a = to_chars(s);
    let b = to_chars(p);
    let mut out = String::new();
    let mut i: usize = 0;
    proof {
        assert(a@.skip(0) =~= a@);
        assert(out@ + replace_text(a@.skip(0), b@, with@) =~= replace_text(a@, b@, with@));
    }
    while i < a.len()
        invariant
            i <= a@.len(),
            a@ == s@,
            b@ == p@,
            b@.len() > 0,
            out@ + replace_text(a@.skip(i as int), b@, with@) == replace_text(a@, b@, with@),
        decreases a@.len() - i,
    {
        proof {
            occurs_at_skip(a@, b@, i as int);
        }
        let ghost before = out@;
        if chars_occur_at(&a, &b, i) {
            out.append(with);
            proof {
                assert(a@.skip(i as int).skip(b@.len() as int) =~= a@.skip(i + b@.len()));
                let rest = replace_text(a@.skip(i + b@.len()), b@, with@);
                assert(before + (with@ + rest) =~= (before + with@) + rest);
            }
            i = i + b.len();
        } else {
            push_char(&mut out, a[i]);
            proof {
                assert(a@.skip(i as int).skip(1) =~= a@.skip(i + 1));
                let rest = replace_text(a@.skip(i + 1), b@, with@);
                assert(before + (seq![a@[i as int]] + rest) =~= before.push(a@[i as int]) + rest);
            }
            i = i + 1;
        }
    }
    proof {
        assert(out@ + replace_text(a@.skip(i as int), b@, with@) =~= out@);
    }
    out
}

/// A text in which the pattern does not occur is left alone.
pub proof fn replace_nothing(s: Seq<char>, p: Seq<char>, r: Seq<char>)
    requires
        p.len() > 0,
        !contains_text(s, p),
    ensures
        replace_text(s, p, r) == s,
    decreases s.len(),
{
    if s.len() > 0 {
        assert(!occurs_at(s, p, 0));
        assert forall|at: int| !occurs_at(s.skip(1), p, at) by {
            if occurs_at(s.skip(1), p, at) {
                assert(s.subrange(at + 1, at + 1 + p.len()) =~= s.skip(1).subrange(
                    at,
                    at + p.len(),
                ));
                assert(occurs_at(s, p, at + 1));
            }
        }
        replace_nothing(s.skip(1), p, r);
        assert(seq![s[0]] + s.skip(1) =~= s);
    }
}

/// Whether two texts cannot be laid over each other, wholly or in part, so that they
/// agree where they meet.
pub open spec fn apart(p: Seq<char>, r: Seq<char>) -> bool {
    forall|d: int| -p.len() < d < r.len() ==> #[trigger] differ_at(p, r, d)
}

/// Whether two texts differ somewhere where they meet, the first one laid over the
/// second at the place `d`.
pub open spec fn differ_at(p: Seq<char>, r: Seq<char>, d: int) -> bool {
    exists|i: int| 0 <= i < p.len() && 0 <= d + i < r.len() && #[trigger] p[i] != r[d + i]
}

/// Whether a replacement stands in a text within its first `k` places.
spec fn replaced_before(t: Seq<char>, r: Seq<char>, k: int) -> bool {
    exists|q: int| 0 <= q < k && #[trigger] occurs_at(t, r, q)
}

proof fn untouched_or_replaced(s: Seq<char>, p: Seq<char>, r: Seq<char>, k: int)
    requires
        p.len() > 0,
        0 <= k <= replace_text(s, p, r).len(),
    ensures
        replaced_before(replace_text(s, p, r), r, k) || (k <= s.len() && replace_text(
            s,
            p,
            r,
        ).take(k) == s.take(k)),
    decreases s.len(),
{
    let t = replace_text(s, p, r);
    if k == 0 {
        assert(t.take(0) =~= s.take(0));
    } else if s.len() > 0 {
        if occurs_at(s, p, 0) {
            assert(t.subrange(0, r.len() as int) =~= r);
            assert(occurs_at(t, r, 0));
        } else {
            let rest = replace_text(s.skip(1), p, r);
            untouched_or_replaced(s.skip(1), p, r, k - 1);
            if replaced_before(rest, r, k - 1) {
                let q = choose|q: int| 0 <= q < k - 1 && #[trigger] occurs_at(rest, r, q);
                assert(t.subrange(q + 1, q + 1 + r.len()) =~= rest.subrange(q, q + r.len()));
                assert(occurs_at(t, r, q + 1));
            } else {
                assert(t.take(k) =~= seq![s[0]] + rest.take(k - 1));
                assert(s.take(k) =~= seq![s[0]] + s.skip(1).take(k - 1));
            }
        }
    }
}

/// Where the pattern and what replaces it are apart, the pattern no longer occurs.
pub proof fn replaced_text_is_gone(s: Seq<char>, p: Seq<char>, r: Seq<char>)
    requires
        p.len() > 0,
        r.len() > 0,
        apart(p, r),
    ensures
        !contains_text(replace_text(s, p, r), p),
    decreases s.len(),
{
    let t = replace_text(s, p, r);
    assert forall|at: int| !occurs_at(t, p, at) by {
        if occurs_at(t, p, at) {
            let found = t.subrange(at, at + p.len());
            if s.len() == 0 {
            } else if occurs_at(s, p, 0) {
                let rest = replace_text(s.skip(p.len() as int), p, r);
                replaced_text_is_gone(s.skip(p.len() as int), p, r);
                if at < r.len() {
                    assert(differ_at(p, r, at));
                    let i = choose|i: int|
                        0 <= i < p.len() && 0 <= at + i < r.len() && #[trigger] p[i] != r[at + i];
                    assert(found[i] == t[at + i]);
                } else {
                    assert(rest.subrange(at - r.len(), at - r.len() + p.len()) =~= found);
                    assert(occurs_at(rest, p, at - r.len()));
                }
            } else {
                let rest = replace_text(s.skip(1), p, r);
                replaced_text_is_gone(s.skip(1), p, r);
                if at > 0 {
                    assert(rest.subrange(at - 1, at - 1 + p.len()) =~= found);
                    assert(occurs_at(rest, p, at - 1));
                } else {
                    untouched_or_replaced(s, p, r, p.len() as int);
                    if replaced_before(t, r, p.len() as int) {
                        let q = choose|q: int| 0 <= q < p.len() && #[trigger] occurs_at(t, r, q);
                        assert(differ_at(p, r, -q));
                        let i = choose|i: int|
                            0 <= i < p.len() && 0 <= -q + i < r.len() && #[trigger] p[i] != r[-q
                                + i];
                        assert(found[i] == t[i]);
                        assert(t.subrange(q, q + r.len())[i - q] == t[i]);
                    } else {
                        assert(s.subrange(0, p.len() as int) =~= s.take(p.len() as int));
                        assert(found =~= t.take(p.len() as int));
                    }
                }
            }
        }
    }
}

// ---------------------------------------------------------------------------
// Trimming
// ---------------------------------------------------------------------------

/// The characters with the Unicode property White_Space.
pub open spec fn is_white_space(c: char) -> bool {
    let u = c as u32;
    ||| 0x09 <= u <= 0x0d
    ||| u == 0x20
    ||| u == 0x85
    ||| u == 0xa0
    ||| u == 0x1680
    ||| 0x2000 <= u <= 0x200a
    ||| u == 0x2028
    ||| u == 0x2029
    ||| u == 0x202f
    ||| u == 0x205f
    ||| u == 0x3000
}

/// A set of characters that can be trimmed off.
#[derive(Clone, Copy, PartialEq, Eq, Structural)]
pub enum Trimmed {
    /// White space.
    White,
    /// The slash.
    Slash,
    /// The two characters that end a line.
    LineEnd,
}

impl Trimmed {
    /// Whether the character is in the set.
    pub open spec fn has(self, c: char) -> bool {
        match self {
            Trimmed::White => is_white_space(c),
            Trimmed::Slash => c == '/',
            Trimmed::LineEnd => c == '\r' || c == '\n',
        }
    }

    fn holds(self, c: char) -> (r: bool)
        ensures
            r == self.has(c),
    {
        match self {
            Trimmed::White => {
                let u: u32 = c as u32;
                (0x09 <= u && u <= 0x0d) || u == 0x20 || u == 0x85 || u == 0xa0 || u == 0x1680 || (
                0x2000 <= u && u <= 0x200a) || u == 0x2028 || u == 0x2029 || u == 0x202f || u
                    == 0x205f || u == 0x3000
            },
            Trimmed::Slash => c == '/',
            Trimmed::LineEnd => c == '\r' || c == '\n',
        }
    }
}

/// The text without the characters of the set at its start.
pub open spec fn trim_start_text(s: Seq<char>, set: Trimmed) -> Seq<char>
    decreases s.len(),
{
    if s.len() > 0 && set.has(s[0]) {
        trim_start_text(s.skip(1), set)
    } else {
        s
    }
}

/// The text without the characters of the set at its end.
pub open spec fn trim_end_text(s: Seq<char>, set: Trimmed) -> Seq<char>
    decreases s.len(),
{
    if s.len() > 0 && set.has(s.last()) {
        trim_end_text(s.drop_last(), set)
    } else {
        s
    }
}

/// The text without the characters of the set at either side.
pub open spec fn trim_text(s: Seq<char>, set: Trimmed) -> Seq<char> {
    trim_end_text(trim_start_text(s, set), set)
}

fn first_kept(chars: &Vec<char>, set: Trimmed) -> (i: usize)
    ensures
        i <= chars@.len(),
        chars@.skip(i as int) == trim_start_text(chars@, set),
{
    let mut i: usize = 0;
    proof {
        assert(chars@.skip(0) =~= chars@);
    }
    while i < chars.len()
        invariant
            i <= chars@.len(),
            trim_start_text(chars@, set) == trim_start_text(chars@.skip(i as int), set),
        decreases chars@.len() - i,
    {
        if !set.holds(chars[i]) {
            return i;
        }
        proof {
            assert(chars@.skip(i as int).skip(1) =~= chars@.skip(i + 1));
        }
        i = i + 1;
    }
    i
}

fn last_kept(chars: &Vec<char>, from: usize, set: Trimmed) -> (n: usize)
    requires
        from <= chars@.len(),
    ensures
        from <= n <= chars@.len(),
        chars@.subrange(from as int, n as int) == trim_end_text(chars@.skip(from as int), set),
{
    let mut n: usize = chars.len();
    proof {
        assert(chars@.subrange(from as int, n as int) =~= chars@.skip(from as int));
    }
    while n > from
        invariant
            from <= n <= chars@.len(),
            trim_end_text(chars@.skip(from as int), set) == trim_end_text(
                chars@.subrange(from as int, n as int),
                set,
            ),
        decreases n,
    {
        if !set.holds(chars[n - 1]) {
            return n;
        }
        proof {
            assert(chars@.subrange(from as int, n as int).drop_last() =~= chars@.subrange(
                from as int,
                n - 1,
            ));
        }
        n = n - 1;
    }
    n
}

/// Trims a set of characters off both sides.
pub fn trim(s: &str, set: Trimmed) -> (r: String)
    ensures
        r@ == trim_text(s@, set),
{
    let chars = to_chars(s);
    let from = first_kept(&chars, set);
    let to = last_kept(&chars, from, set);
    slice_text(&chars, from, to)
}

/// Trims a set of characters off the end.
pub fn trim_end(s: &str, set: Trimmed) -> (r: String)
    ensures
        r@ == trim_end_text(s@, set),
{
    let chars = to_chars(s);
    let to = last_kept(&chars, 0, set);
    proof {
        assert(chars@.skip(0) =~= chars@);
    }
    slice_text(&chars, 0, to)
}

/// A trimmed text neither begins nor ends with a character of the set.
pub proof fn trimmed_sides(s: Seq<char>, set: Trimmed)
    ensures
        trim_text(s, set).len() > 0 ==> !set.has(trim_text(s, set)[0]) && !set.has(
            trim_text(s, set).last(),
        ),
{
    trimmed_start(s, set);
    trimmed_end(trim_start_text(s, set), set);
}

proof fn trimmed_start(s: Seq<char>, set: Trimmed)
    ensures
        trim_start_text(s, set).len() > 0 ==> !set.has(trim_start_text(s, set)[0]),
    decreases s.len(),
{
    if s.len() > 0 && set.has(s[0]) {
        trimmed_start(s.skip(1), set);
    }
}

proof fn trimmed_end(s: Seq<char>, set: Trimmed)
    ensures
        trim_end_text(s, set).len() <= s.len(),
        trim_end_text(s, set).len() > 0 ==> !set.has(trim_end_text(s, set).last())
            && trim_end_text(s, set)[0] == s[0],
    decreases s.len(),
{
    if s.len() > 0 && set.has(s.last()) {
        trimmed_end(s.drop_last(), set);
    }
}

// ---------------------------------------------------------------------------
// Decimal writing
// ---------------------------------------------------------------------------

/// The decimal digit of a number under ten.
pub open spec fn digit(d: nat) -> char {
    if d == 0 {
        '0'
    } else if d == 1 {
        '1'
    } else if d == 2 {
        '2'
    } else if d == 3 {
        '3'
    } else if d == 4 {
        '4'
    } else if d == 5 {
        '5'
    } else if d == 6 {
        '6'
    } else if d == 7 {
        '7'
    } else if d == 8 {
        '8'
    } else {
        '9'
    }
}

/// A natural number in decimal, without leading zeros.
pub open spec fn decimal(n: nat) -> Seq<char>
    decreases n,
{
    if n < 10 {
        seq![digit(n)]
    } else {
        decimal(n / 10).push(digit(n % 10))
    }
}

fn digit_char(d: u64) -> (c: char)
    requires
        d < 10,
    ensures
        c == digit(d as nat),
{
    if d == 0 {
        '0'
    } else if d == 1 {
        '1'
    } else if d == 2 {
        '2'
    } else if d == 3 {
        '3'
    } else if d == 4 {
        '4'
    } else if d == 5 {
        '5'
    } else if d == 6 {
        '6'
    } else if d == 7 {
        '7'
    } else if d == 8 {
        '8'
    } else {
        '9'
    }
}

/// Writes a number in decimal.
pub fn decimal_text(n: u64) -> (r: String)
    ensures
        r@ == decimal(n as nat),
    decreases n,
{
    if n < 10 {
        let mut out = String::new();
        push_char(&mut out, digit_char(n));
        proof {
            assert(out@ =~= seq![digit(n as nat)]);
        }
        out
    } else {
        let mut out = decimal_text(n / 10);
        push_char(&mut out, digit_char(n % 10));
        out
    }
}

// ---------------------------------------------------------------------------
// Case
// ---------------------------------------------------------------------------

/// The result of `str::to_lowercase`.
pub uninterp spec fn lowercase(s: Seq<char>) -> Seq<char>;

/// The result of `str::to_uppercase`.
pub uninterp spec fn uppercase(s: Seq<char>) -> Seq<char>;

/// Whether all the characters are ASCII.
pub open spec fn is_ascii_text(s: Seq<char>) -> bool {
    forall|i: int| 0 <= i < s.len() ==> #[trigger] s[i] < '\u{80}'
}

/// The lower-case form of an ASCII character.
pub open spec fn ascii_lower(c: char) -> char {
    if 'A' <= c <= 'Z' {
        (c as u32 + 32) as char
    } else {
        c
    }
}

/// The upper-case form of an ASCII character.
pub open spec fn ascii_upper(c: char) -> char {
    if 'a' <= c <= 'z' {
        (c as u32 - 32) as char
    } else {
        c
    }
}

/// An ASCII text in lower case.
pub open spec fn ascii_lowered(s: Seq<char>) -> Seq<char> {
    Seq::new(s.len(), |i: int| ascii_lower(s[i]))
}

/// An ASCII text in upper case.
pub open spec fn ascii_uppered(s: Seq<char>) -> Seq<char> {
    Seq::new(s.len(), |i: int| ascii_upper(s[i]))
}

/// Calls `str::to_lowercase`. The result is a function of the text alone; of an
/// ASCII text it is the ASCII lower-case form, character by character.
#[verifier::external_body]
pub(crate) fn to_lowercase(s: &str) -> (r: String)
    ensures
        r@ == lowercase(s@),
        is_ascii_text(s@) ==> r@ == ascii_lowered(s@),
{
    s.to_lowercase()
}

/// Calls `str::to_uppercase`. The result is a function of the text alone; of an
/// ASCII text it is the ASCII upper-case form, character by character.
#[verifier::external_body]
pub(crate) fn to_uppercase(s: &str) -> (r: String)
    ensures
        r@ == uppercase(s@),
        is_ascii_text(s@) ==> r@ == ascii_uppered(s@),
{
    s.to_uppercase()
}

// ---------------------------------------------------------------------------
// Lists in messages
// ---------------------------------------------------------------------------

/// The `Debug` form of a list of strings.
pub uninterp spec fn debug_list(items: Seq<Seq<char>>) -> Seq<char>;

/// Formats a list of strings by its `Debug` form. The result is a function of the
/// strings alone.
#[verifier::external_body]
pub(crate) fn debug_texts(items: &Vec<String>) -> (r: String)
    ensures
        r@ == debug_list(texts(items@)),
{
    format!("{:?}", items)
}

// ---------------------------------------------------------------------------
// Laws
// ---------------------------------------------------------------------------

/// A text begins with another exactly where it is the other followed by something.
pub proof fn prefix_is_what_it_begins_with(s: Seq<char>, p: Seq<char>)
    ensures
        has_prefix(s, p) <==> exists|rest: Seq<char>| s == #[trigger] (p + rest),
        has_prefix(s, p) ==> s == p + s.skip(p.len() as int),
{
    if has_prefix(s, p) {
        assert(s =~= p + s.skip(p.len() as int));
    }
    if exists|rest: Seq<char>| s == #[trigger] (p + rest) {
        let rest = choose|rest: Seq<char>| s == #[trigger] (p + rest);
        assert((p + rest).take(p.len() as int) =~= p);
    }
}

/// A text occurs in another exactly where the other is something, the text, and
/// something again.
pub proof fn occurrence_is_a_part(s: Seq<char>, p: Seq<char>)
    ensures
        contains_text(s, p) <==> exists|a: Seq<char>, b: Seq<char>| s == #[trigger] (a + p + b),
{
    if contains_text(s, p) {
        let at = choose|at: int| occurs_at(s, p, at);
        assert(s =~= s.take(at) + s.subrange(at, at + p.len()) + s.skip(at + p.len()));
        assert(s == s.take(at) + p + s.skip(at + p.len()));
    }
    if exists|a: Seq<char>, b: Seq<char>| s == #[trigger] (a + p + b) {
        let (a, b) = choose|a: Seq<char>, b: Seq<char>| s == #[trigger] (a + p + b);
        assert(s.subrange(a.len() as int, (a.len() + p.len()) as int) =~= p);
        assert(occurs_at(s, p, a.len() as int));
    }
}

/// No piece of a split text holds the separator. Together with the law that joining
/// gives the text back, this leaves only one way to split.
pub proof fn pieces_hold_no_separator(s: Seq<char>, sep: char)
    ensures
        split_text(s, sep).len() >= 1,
        forall|i: int|
            0 <= i < split_text(s, sep).len() ==> !(#[trigger] split_text(s, sep)[i]).contains(sep),
    decreases s.len(),
{
    if s.len() > 0 {
        pieces_hold_no_separator(s.drop_last(), sep);
        let front = split_text(s.drop_last(), sep);
        let parts = split_text(s, sep);
        assert forall|i: int| 0 <= i < parts.len() implies !(#[trigger] parts[i]).contains(
            sep,
        ) by {
            if s.last() == sep {
                if i < front.len() {
                    assert(parts[i] == front[i]);
                }
            } else if i < front.len() - 1 {
                assert(parts[i] == front[i]);
            } else {
                let piece = front.last();
                assert(parts[i] == piece.push(s.last()));
                assert(!front[front.len() - 1].contains(sep));
                assert forall|k: int| 0 <= k < parts[i].len() implies parts[i][k] != sep by {
                    if k < piece.len() {
                        assert(piece[k] != sep);
                    }
                }
            }
        }
    }
}

/// The first piece of a split text is what stands before the first separator, or the
/// whole text where there is none; there is more than one piece exactly where the
/// separator occurs.
pub proof fn first_piece_ends_at_the_separator(s: Seq<char>, sep: char)
    ensures
        ({
            let first = split_text(s, sep)[0];
            &&& !first.contains(sep)
            &&& first.len() <= s.len() && s.take(first.len() as int) == first
            &&& s.contains(sep) ==> first.len() < s.len() && s[first.len() as int] == sep
            &&& !s.contains(sep) ==> first == s
        }),
        split_text(s, sep).len() > 1 <==> s.contains(sep),
    decreases s.len(),
{
    pieces_hold_no_separator(s, sep);
    if s.len() > 0 {
        let d = s.drop_last();
        first_piece_ends_at_the_separator(d, sep);
        pieces_hold_no_separator(d, sep);
        let front = split_text(d, sep);
        let parts = split_text(s, sep);
        let first = parts[0];
        if d.contains(sep) {
            let k = choose|k: int| 0 <= k < d.len() && d[k] == sep;
            assert(s[k] == sep);
            assert(parts[0] == front[0]);
            assert(s.take(first.len() as int) =~= d.take(first.len() as int));
            assert(s[first.len() as int] == d[first.len() as int]);
        } else {
            assert(front.len() == 1);
            assert(front[0] == d);
            if s.last() == sep {
                assert(s[s.len() - 1] == sep);
                assert(parts[0] == d);
                assert(s.take(d.len() as int) =~= d);
            } else {
                assert(parts[0] == d.push(s.last()));
                assert(d.push(s.last()) =~= s);
                assert(!s.contains(sep)) by {
                    if s.contains(sep) {
                        let k = choose|k: int| 0 <= k < s.len() && s[k] == sep;
                        assert(d[k] == sep);
                    }
                }
                assert(s.take(s.len() as int) =~= s);
            }
        }
    } else {
        assert(split_text(s, sep)[0] =~= s);
        assert(s.take(0) =~= s);
    }
}

/// Joining two lists of texts, neither empty, is joining each and putting the separator
/// between; a single text is joined to itself, and no texts to nothing.
pub proof fn joining_goes_piece_by_piece(
    a: Seq<Seq<char>>,
    b: Seq<Seq<char>>,
    one: Seq<char>,
    sep: Seq<char>,
)
    ensures
        join_text(Seq::empty(), sep).len() == 0,
        join_text(seq![one], sep) == one,
        a.len() > 0 && b.len() > 0 ==> join_text(a + b, sep) == join_text(a, sep) + sep + join_text(
            b,
            sep,
        ),
    decreases b.len(),
{
    if a.len() > 0 && b.len() > 0 {
        assert((a + b).drop_last() =~= a + b.drop_last());
        if b.len() == 1 {
            assert(a + b.drop_last() =~= a);
        } else {
            joining_goes_piece_by_piece(a, b.drop_last(), one, sep);
            assert(join_text(a, sep) + sep + join_text(b.drop_last(), sep) + sep + b.last()
                =~= join_text(a, sep) + sep + (join_text(b.drop_last(), sep) + sep + b.last()));
        }
    }
}

/// Replacing goes on after each occurrence; a character at which the pattern does not
/// begin stays; and a pattern that is replaced by itself leaves the text as it is.
pub proof fn replacing_goes_from_left_to_right(
    s: Seq<char>,
    p: Seq<char>,
    r: Seq<char>,
    c: char,
)
    requires
        p.len() > 0,
    ensures
        replace_text(Seq::empty(), p, r).len() == 0,
        replace_text(p + s, p, r) == r + replace_text(s, p, r),
        !has_prefix(seq![c] + s, p) ==> replace_text(seq![c] + s, p, r) == seq![c] + replace_text(
            s,
            p,
            r,
        ),
        replace_text(s, p, p) == s,
    decreases s.len(),
{
    let t = p + s;
    assert(t.subrange(0, p.len() as int) =~= p);
    assert(t.skip(p.len() as int) =~= s);
    let u = seq![c] + s;
    assert(u.skip(1) =~= s);
    if occurs_at(u, p, 0) {
        assert(u.take(p.len() as int) =~= u.subrange(0, p.len() as int));
    }
    if s.len() > 0 {
        if occurs_at(s, p, 0) {
            replacing_goes_from_left_to_right(s.skip(p.len() as int), p, r, c);
            assert(s =~= s.subrange(0, p.len() as int) + s.skip(p.len() as int));
        } else {
            replacing_goes_from_left_to_right(s.skip(1), p, r, c);
            assert(s =~= seq![s[0]] + s.skip(1));
        }
    }
}

/// Trimming takes off characters of the set only, and those at the sides.
pub proof fn trimming_takes_off_the_sides(s: Seq<char>, set: Trimmed)
    ensures
        exists|a: Seq<char>, b: Seq<char>|
            s == #[trigger] (a + trim_text(s, set) + b) && (forall|i: int|
                0 <= i < a.len() ==> set.has(#[trigger] a[i])) && (forall|i: int|
                0 <= i < b.len() ==> set.has(#[trigger] b[i])),
        exists|b: Seq<char>|
            s == #[trigger] (trim_end_text(s, set) + b) && forall|i: int|
                0 <= i < b.len() ==> set.has(#[trigger] b[i]),
{
    let a = start_taken_off(s, set);
    let mid = trim_start_text(s, set);
    let b = end_taken_off(mid, set);
    assert(s =~= a + trim_text(s, set) + b);
    let c = end_taken_off(s, set);
    assert(s == trim_end_text(s, set) + c);
}

/// A text that neither begins nor ends with a character of the set is what is left of
/// it when characters of the set are put at its sides and trimmed off; nothing is left of
/// a text exactly where it consists of characters of the set.
pub proof fn trimming_leaves_the_middle(
    left: Seq<char>,
    middle: Seq<char>,
    right: Seq<char>,
    set: Trimmed,
)
    requires
        forall|i: int| 0 <= i < left.len() ==> set.has(#[trigger] left[i]),
        forall|i: int| 0 <= i < right.len() ==> set.has(#[trigger] right[i]),
    ensures
        middle.len() > 0 && !set.has(middle[0]) && !set.has(middle.last()) ==> trim_text(
            left + middle + right,
            set,
        ) == middle,
        trim_text(middle, set).len() == 0 <==> forall|i: int|
            0 <= i < middle.len() ==> set.has(#[trigger] middle[i]),
{
    if middle.len() > 0 && !set.has(middle[0]) && !set.has(middle.last()) {
        assert(left + middle + right =~= left + (middle + right));
        start_comes_off(left, middle + right, set);
        end_comes_off(middle, right, set);
    }
    let (a, b) = choose|a: Seq<char>, b: Seq<char>|
        middle == #[trigger] (a + trim_text(middle, set) + b) && (forall|i: int|
            0 <= i < a.len() ==> set.has(#[trigger] a[i])) && (forall|i: int|
            0 <= i < b.len() ==> set.has(#[trigger] b[i]));
    trimming_takes_off_the_sides(middle, set);
    trimmed_sides(middle, set);
    let mid = trim_text(middle, set);
    assert(middle == a + mid + b);
    if mid.len() == 0 {
        assert forall|i: int| 0 <= i < middle.len() implies set.has(#[trigger] middle[i]) by {
            if i < a.len() {
                assert(set.has(a[i]));
            } else {
                assert(set.has(b[i - a.len()]));
            }
        }
    } else {
        assert(middle[a.len() as int] == mid[0]);
    }
}

proof fn start_comes_off(left: Seq<char>, rest: Seq<char>, set: Trimmed)
    requires
        forall|i: int| 0 <= i < left.len() ==> set.has(#[trigger] left[i]),
        rest.len() > 0,
        !set.has(rest[0]),
    ensures
        trim_start_text(left + rest, set) == rest,
    decreases left.len(),
{
    if left.len() == 0 {
        assert(left + rest =~= rest);
    } else {
        let shorter = left.skip(1);
        assert forall|i: int| 0 <= i < shorter.len() implies set.has(#[trigger] shorter[i]) by {
            assert(set.has(left[i + 1]));
        }
        start_comes_off(shorter, rest, set);
        assert((left + rest).skip(1) =~= shorter + rest);
        assert((left + rest)[0] == left[0]);
    }
}

proof fn end_comes_off(rest: Seq<char>, right: Seq<char>, set: Trimmed)
    requires
        forall|i: int| 0 <= i < right.len() ==> set.has(#[trigger] right[i]),
        rest.len() > 0,
        !set.has(rest.last()),
    ensures
        trim_end_text(rest + right, set) == rest,
    decreases right.len(),
{
    if right.len() == 0 {
        assert(rest + right =~= rest);
    } else {
        let shorter = right.drop_last();
        assert forall|i: int| 0 <= i < shorter.len() implies set.has(#[trigger] shorter[i]) by {
            assert(set.has(right[i]));
        }
        end_comes_off(rest, shorter, set);
        assert((rest + right).drop_last() =~= rest + shorter);
        assert((rest + right).last() == right.last());
        assert(set.has(right[right.len() - 1]));
    }
}

proof fn start_taken_off(s: Seq<char>, set: Trimmed) -> (a: Seq<char>)
    ensures
        s == a + trim_start_text(s, set),
        forall|i: int| 0 <= i < a.len() ==> set.has(#[trigger] a[i]),
    decreases s.len(),
{
    if s.len() > 0 && set.has(s[0]) {
        let rest = start_taken_off(s.skip(1), set);
        let a = seq![s[0]] + rest;
        assert(s =~= seq![s[0]] + s.skip(1));
        assert(s =~= a + trim_start_text(s, set));
        assert forall|i: int| 0 <= i < a.len() implies set.has(#[trigger] a[i]) by {
            if i > 0 {
                assert(a[i] == rest[i - 1]);
            }
        }
        a
    } else {
        assert(s =~= Seq::<char>::empty() + s);
        Seq::empty()
    }
}

proof fn end_taken_off(s: Seq<char>, set: Trimmed) -> (b: Seq<char>)
    ensures
        s == trim_end_text(s, set) + b,
        forall|i: int| 0 <= i < b.len() ==> set.has(#[trigger] b[i]),
    decreases s.len(),
{
    if s.len() > 0 && set.has(s.last()) {
        let rest = end_taken_off(s.drop_last(), set);
        let b = rest.push(s.last());
        assert(s =~= s.drop_last().push(s.last()));
        assert(s =~= trim_end_text(s, set) + b);
        assert forall|i: int| 0 <= i < b.len() implies set.has(#[trigger] b[i]) by {
            if i < rest.len() {
                assert(b[i] == rest[i]);
            }
        }
        b
    } else {
        assert(s =~= s + Seq::<char>::empty());
        Seq::empty()
    }
}

/// Of the ASCII characters the space and those that move the place of writing are white
/// space, and no others.
pub proof fn ascii_white_space(c: char)
    requires
        c < '\u{80}',
    ensures
        is_white_space(c) <==> c == ' ' || c == '\t' || c == '\n' || c == '\u{b}' || c == '\u{c}'
            || c == '\r',
        Trimmed::White.has(c) == is_white_space(c),
{
}

/// Of two texts that first differ at a character, the one with the lesser character
/// comes first; and a text comes before every longer text that begins with it.
pub proof fn first_difference_decides(
    p: Seq<char>,
    a: char,
    s: Seq<char>,
    b: char,
    t: Seq<char>,
)
    ensures
        a != b ==> (text_less(p + seq![a] + s, p + seq![b] + t) <==> a < b),
        s.len() > 0 ==> text_less(p, p + s) && !text_less(p + s, p),
    decreases p.len(),
{
    let x = p + seq![a] + s;
    let y = p + seq![b] + t;
    let z = p + s;
    if p.len() == 0 {
        assert(x[0] == a);
        assert(y[0] == b);
    } else {
        first_difference_decides(p.skip(1), a, s, b, t);
        assert(x[0] == p[0]);
        assert(y[0] == p[0]);
        assert(x.skip(1) =~= p.skip(1) + seq![a] + s);
        assert(y.skip(1) =~= p.skip(1) + seq![b] + t);
        assert(z.skip(1) =~= p.skip(1) + s);
    }
}

/// The value of a text of decimal digits.
pub open spec fn value_of_digits(s: Seq<char>) -> int
    decreases s.len(),
{
    if s.len() == 0 {
        0
    } else {
        10 * value_of_digits(s.drop_last()) + (s.last() as u32 - '0' as u32)
    }
}

/// The decimal text of a number is made of digits, has its value, and begins with a zero
/// only where the number is zero.
pub proof fn decimal_has_the_value(n: nat)
    ensures
        value_of_digits(decimal(n)) == n,
        decimal(n).len() > 0,
        forall|i: int| 0 <= i < decimal(n).len() ==> '0' <= #[trigger] decimal(n)[i] <= '9',
        decimal(n)[0] == '0' ==> n == 0 && decimal(n).len() == 1,
    decreases n,
{
    let s = decimal(n);
    if n < 10 {
        assert(s.drop_last() =~= Seq::empty());
        reveal_with_fuel(value_of_digits, 2);
    } else {
        decimal_has_the_value(n / 10);
        assert(s.drop_last() =~= decimal(n / 10));
        assert forall|i: int| 0 <= i < s.len() implies '0' <= #[trigger] s[i] <= '9' by {
            if i < s.len() - 1 {
                assert(s[i] == decimal(n / 10)[i]);
            }
        }
        assert(s[0] == decimal(n / 10)[0]);
    }
}

/// Beyond ASCII, white space is the next-line and the no-break space, the spaces of ogham,
/// of the general punctuation and of ideographs, and the separators of lines and paragraphs;
/// a line ends with a carriage return or a line feed.
pub proof fn wide_white_space(c: char)
    ensures
        c >= '\u{80}' ==> (is_white_space(c) <==> c == '\u{85}' || c == '\u{a0}' || c == '\u{1680}'
            || '\u{2000}' <= c <= '\u{200a}' || c == '\u{2028}' || c == '\u{2029}' || c
            == '\u{202f}' || c == '\u{205f}' || c == '\u{3000}'),
        Trimmed::LineEnd.has(c) <==> c == '\n' || c == '\r',
        Trimmed::Slash.has(c) <==> c == '/',
{
}

/// The letters of ASCII change case one for one, and every other character stays.
pub proof fn letters_change_case(c: char)
    ensures
        'A' <= c <= 'Z' ==> 'a' <= ascii_lower(c) <= 'z' && ascii_lower(c) as int - 'a' as int == c
            as int - 'A' as int,
        'a' <= c <= 'z' ==> 'A' <= ascii_upper(c) <= 'Z' && ascii_upper(c) as int - 'A' as int == c
            as int - 'a' as int,
        !('A' <= c <= 'Z') ==> ascii_lower(c) == c,
        !('a' <= c <= 'z') ==> ascii_upper(c) == c,
        ascii_lower(ascii_upper(c)) == ascii_lower(c),
        ascii_upper(ascii_lower(c)) == ascii_upper(c),
{
}

} // verus!
