//! Character-level text operations over the `Seq<char>` view of strings.
//!
//! Strings are scanned as vectors of characters, so every position below is a
//! character index, never a byte offset.

use vstd::prelude::*;

verus! {

/// A set of characters that a scan can run over.
#[derive(Clone, Copy, Debug)]
pub enum CharClass {
    /// Unicode white space.
    Space,
    /// The dollar sign that delimits inline math.
    Dollar,
    /// What may stand inside a directive argument: anything but white space
    /// and the percent sign.
    Word,
    /// What may stand inside a part of an interactive tag: anything but the
    /// slash and the underscore.
    Name,
    /// Every character but the given one.
    Except(char),
    /// The given character and no other.
    Only(char),
}

/// Whether `c` has the Unicode `White_Space` property.
pub open spec fn is_space(c: char) -> bool {
    let n = c as u32;
    ||| 0x09 <= n <= 0x0D
    ||| n == 0x20
    ||| n == 0x85
    ||| n == 0xA0
    ||| n == 0x1680
    ||| 0x2000 <= n <= 0x200A
    ||| n == 0x2028
    ||| n == 0x2029
    ||| n == 0x202F
    ||| n == 0x205F
    ||| n == 0x3000
}

impl CharClass {
    /// Membership of `c` in the class.
    pub open spec fn has(self, c: char) -> bool {
        match self {
            CharClass::Space => is_space(c),
            CharClass::Dollar => c == '$',
            CharClass::Word => !is_space(c) && c != '%',
            CharClass::Name => c != '/' && c != '_',
            CharClass::Except(other) => c != other,
            CharClass::Only(one) => c == one,
        }
    }

    /// Decides membership of `c` in the class.
    pub fn contains(self, c: char) -> (found: bool)
        ensures
            found == self.has(c),
    {
        match self {
            CharClass::Space => is_whitespace(c),
            CharClass::Dollar => c == '$',
            CharClass::Word => !is_whitespace(c) && c != '%',
            CharClass::Name => c != '/' && c != '_',
            CharClass::Except(other) => c != other,
            CharClass::Only(one) => c == one,
        }
    }
}

/// Decides whether `c` is white space.
pub fn is_whitespace(c: char) -> (found: bool)
    ensures
        found == is_space(c),
{
    let n: u32 = c as u32;
    (0x09 <= n && n <= 0x0D) || n == 0x20 || n == 0x85 || n == 0xA0 || n == 0x1680 || (0x2000 <= n
        && n <= 0x200A) || n == 0x2028 || n == 0x2029 || n == 0x202F || n == 0x205F || n == 0x3000
}

/// Length of the longest prefix of `s` whose characters all lie in `class`.
pub open spec fn leading_count(s: Seq<char>, class: CharClass) -> nat
    decreases s.len(),
{
    if s.len() > 0 && class.has(s[0]) {
        1 + leading_count(s.drop_first(), class)
    } else {
        0
    }
}

/// Length of the longest suffix of `s` whose characters all lie in `class`.
pub open spec fn trailing_count(s: Seq<char>, class: CharClass) -> nat
    decreases s.len(),
{
    if s.len() > 0 && class.has(s.last()) {
        1 + trailing_count(s.drop_last(), class)
    } else {
        0
    }
}

/// `s` without its leading white space.
pub open spec fn trim_start(s: Seq<char>) -> Seq<char> {
    s.skip(leading_count(s, CharClass::Space) as int)
}

/// `s` without its trailing white space.
pub open spec fn trim_end(s: Seq<char>) -> Seq<char> {
    s.take(s.len() - trailing_count(s, CharClass::Space))
}

/// `s` without white space at either end.
pub open spec fn trim(s: Seq<char>) -> Seq<char> {
    trim_end(trim_start(s))
}

/// A prefix run is pinned down by its length: everything before `n` is in the
/// class, and the run cannot be extended.
pub proof fn lemma_leading_count(s: Seq<char>, class: CharClass, n: int)
    requires
        0 <= n <= s.len(),
        forall|i: int| 0 <= i < n ==> class.has(#[trigger] s[i]),
        n == s.len() || !class.has(s[n]),
    ensures
        leading_count(s, class) == n,
    decreases n,
{
    if n > 0 {
        let rest = s.drop_first();
        assert forall|i: int| 0 <= i < n - 1 implies class.has(#[trigger] rest[i]) by {
            assert(rest[i] == s[i + 1]);
        }
        if n < s.len() {
            assert(rest[n - 1] == s[n]);
        }
        lemma_leading_count(rest, class, n - 1);
    }
}

/// A suffix run is pinned down by its length.
pub proof fn lemma_trailing_count(s: Seq<char>, class: CharClass, n: int)
    requires
        0 <= n <= s.len(),
        forall|i: int| s.len() - n <= i < s.len() ==> class.has(#[trigger] s[i]),
        n == s.len() || !class.has(s[s.len() - n - 1]),
    ensures
        trailing_count(s, class) == n,
    decreases n,
{
    if n > 0 {
        let rest = s.drop_last();
        assert forall|i: int| rest.len() - (n - 1) <= i < rest.len() implies class.has(
            #[trigger] rest[i],
        ) by {
            assert(rest[i] == s[i]);
        }
        if n < s.len() {
            assert(rest[rest.len() - (n - 1) - 1] == s[s.len() - n - 1]);
        }
        lemma_trailing_count(rest, class, n - 1);
    }
}

/// A run never exceeds the text it is counted in.
pub proof fn lemma_leading_count_bound(s: Seq<char>, class: CharClass)
    ensures
        leading_count(s, class) <= s.len(),
        forall|i: int| 0 <= i < leading_count(s, class) ==> class.has(#[trigger] s[i]),
        leading_count(s, class) < s.len() ==> !class.has(s[leading_count(s, class) as int]),
    decreases s.len(),
{
    if s.len() > 0 && class.has(s[0]) {
        let rest = s.drop_first();
        lemma_leading_count_bound(rest, class);
        assert forall|i: int| 0 <= i < leading_count(s, class) implies class.has(
            #[trigger] s[i],
        ) by {
            if i > 0 {
                assert(s[i] == rest[i - 1]);
            }
        }
        if leading_count(s, class) < s.len() {
            assert(s[leading_count(s, class) as int] == rest[leading_count(rest, class) as int]);
        }
    }
}

/// A suffix run never exceeds the text it is counted in.
pub proof fn lemma_trailing_count_bound(s: Seq<char>, class: CharClass)
    ensures
        trailing_count(s, class) <= s.len(),
        forall|i: int|
            s.len() - trailing_count(s, class) <= i < s.len() ==> class.has(#[trigger] s[i]),
        trailing_count(s, class) < s.len() ==> !class.has(
            s[s.len() - trailing_count(s, class) - 1],
        ),
    decreases s.len(),
{
    if s.len() > 0 && class.has(s.last()) {
        let rest = s.drop_last();
        lemma_trailing_count_bound(rest, class);
        assert forall|i: int| s.len() - trailing_count(s, class) <= i < s.len() implies class.has(
            #[trigger] s[i],
        ) by {
            if i < s.len() - 1 {
                assert(s[i] == rest[i]);
            }
        }
        if trailing_count(s, class) < s.len() {
            assert(s[s.len() - trailing_count(s, class) - 1] == rest[rest.len() - trailing_count(
                rest,
                class,
            ) - 1]);
        }
    }
}

/// Skipping inside a window moves the window's start.
pub proof fn lemma_window_skip(s: Seq<char>, from: int, to: int, k: int)
    requires
        0 <= from,
        0 <= k,
        from + k <= to <= s.len(),
    ensures
        s.subrange(from, to).skip(k) == s.subrange(from + k, to),
{
    assert(s.subrange(from, to).skip(k) =~= s.subrange(from + k, to));
}

/// Taking from a window moves the window's end.
pub proof fn lemma_window_take(s: Seq<char>, from: int, to: int, k: int)
    requires
        0 <= from,
        0 <= k,
        from + k <= to <= s.len(),
    ensures
        s.subrange(from, to).take(k) == s.subrange(from, from + k),
{
    assert(s.subrange(from, to).take(k) =~= s.subrange(from, from + k));
}

/// A window equals a text exactly when it has the text's length and begins
/// with it.
pub proof fn lemma_prefix_of_same_length(prefix: Seq<char>, s: Seq<char>)
    ensures
        (prefix.is_prefix_of(s) && prefix.len() == s.len()) <==> prefix == s,
{
    if prefix.is_prefix_of(s) && prefix.len() == s.len() {
        assert(s.subrange(0, prefix.len() as int) =~= s);
    }
    if prefix == s {
        assert(s.subrange(0, prefix.len() as int) =~= s);
    }
}

/// Whether every character of `s` lies in `class`.
pub open spec fn all_in(s: Seq<char>, class: CharClass) -> bool {
    forall|i: int| 0 <= i < s.len() ==> class.has(#[trigger] s[i])
}

/// What follows a text can be had back from the two joined.
pub proof fn lemma_concat_parts(first: Seq<char>, rest: Seq<char>)
    ensures
        first.is_prefix_of(first + rest),
        (first + rest).skip(first.len() as int) == rest,
        (first + rest).take(first.len() as int) == first,
{
    assert((first + rest).subrange(0, first.len() as int) =~= first);
    assert((first + rest).skip(first.len() as int) =~= rest);
    assert((first + rest).take(first.len() as int) =~= first);
}

/// A run in front of a text that does not continue it is the leading run of
/// the two joined.
pub proof fn lemma_run_then(run: Seq<char>, rest: Seq<char>, class: CharClass)
    requires
        all_in(run, class),
        rest.len() == 0 || !class.has(rest[0]),
    ensures
        leading_count(run + rest, class) == run.len(),
{
    let joined = run + rest;
    assert forall|i: int| 0 <= i < run.len() implies class.has(#[trigger] joined[i]) by {
        assert(joined[i] == run[i]);
    }
    if rest.len() > 0 {
        assert(joined[run.len() as int] == rest[0]);
    }
    lemma_leading_count(joined, class, run.len() as int);
}

/// A text is its leading run followed by a rest that does not continue the
/// run.
pub proof fn lemma_split_run(s: Seq<char>, class: CharClass)
    ensures
        ({
            let n = leading_count(s, class) as int;
            &&& n <= s.len()
            &&& s == s.take(n) + s.skip(n)
            &&& all_in(s.take(n), class)
            &&& s.skip(n).len() == 0 || !class.has(s.skip(n)[0])
        }),
{
    let n = leading_count(s, class) as int;
    lemma_leading_count_bound(s, class);
    assert(s =~= s.take(n) + s.skip(n));
    assert forall|i: int| 0 <= i < s.take(n).len() implies class.has(#[trigger] s.take(n)[i]) by {
        assert(s.take(n)[i] == s[i]);
    }
    if n < s.len() {
        assert(s.skip(n)[0] == s[n]);
    }
}

/// Trimmed text neither starts nor ends with white space.
pub proof fn lemma_trim_bare(s: Seq<char>)
    ensures
        trim(s).len() > 0 ==> !is_space(trim(s)[0]) && !is_space(trim(s).last()),
{
    let front = trim_start(s);
    lemma_split_run(s, CharClass::Space);
    lemma_trailing_count_bound(front, CharClass::Space);
}

/// Trimming twice is trimming once.
pub proof fn lemma_trim_idempotent(s: Seq<char>)
    ensures
        trim(trim(s)) == trim(s),
{
    let once = trim(s);
    lemma_trim_bare(s);
    lemma_leading_count(once, CharClass::Space, 0);
    lemma_trailing_count(once, CharClass::Space, 0);
    assert(once.skip(0) =~= once);
    assert(once.take(once.len() as int) =~= once);
}

/// The characters of `text`, in order.
pub fn chars_of(text: &str) -> (chars: Vec<char>)
    ensures
        chars@ == text@,
{
    let mut chars: Vec<char> = Vec::new();
    for c in it: text.chars()
        invariant
            chars@ == it.seq().take(it.index()),
    {
        chars.push(c);
    }
    chars
}

/// Runs forward from `from` over the characters of `class`, inside the window
/// that ends at `to`, and returns where the run stops.
pub fn scan_forward(chars: &Vec<char>, from: usize, to: usize, class: CharClass) -> (stop: usize)
    requires
        from <= to <= chars.len(),
    ensures
        from <= stop <= to,
        stop == from + leading_count(chars@.subrange(from as int, to as int), class),
{
    let mut at: usize = from;
    while at < to && class.contains(chars[at])
        invariant
            from <= at <= to <= chars.len(),
            forall|i: int| from <= i < at ==> class.has(#[trigger] chars@[i]),
        decreases to - at,
    {
        at += 1;
    }
    proof {
        let window = chars@.subrange(from as int, to as int);
        assert forall|i: int| 0 <= i < at - from implies class.has(#[trigger] window[i]) by {
            assert(window[i] == chars@[from + i]);
        }
        lemma_leading_count(window, class, at - from);
    }
    at
}

/// Runs backward from `to` over the characters of `class`, inside the window
/// that starts at `from`, and returns where the run stops.
pub fn scan_backward(chars: &Vec<char>, from: usize, to: usize, class: CharClass) -> (stop: usize)
    requires
        from <= to <= chars.len(),
    ensures
        from <= stop <= to,
        stop == to - trailing_count(chars@.subrange(from as int, to as int), class),
{
    let mut at: usize = to;
    while at > from && class.contains(chars[at - 1])
        invariant
            from <= at <= to <= chars.len(),
            forall|i: int| at <= i < to ==> class.has(#[trigger] chars@[i]),
        decreases at - from,
    {
        at -= 1;
    }
    proof {
        let window = chars@.subrange(from as int, to as int);
        assert forall|i: int| window.len() - (to - at) <= i < window.len() implies class.has(
            #[trigger] window[i],
        ) by {
            assert(window[i] == chars@[from + i]);
        }
        lemma_trailing_count(window, class, to - at);
    }
    at
}

/// Skips the white space at the start of the window from `from` to `to` and
/// returns where the rest of the window starts.
pub fn skip_spaces(chars: &Vec<char>, from: usize, to: usize) -> (start: usize)
    requires
        from <= to <= chars.len(),
    ensures
        from <= start <= to,
        start == from + leading_count(chars@.subrange(from as int, to as int), CharClass::Space),
        chars@.subrange(start as int, to as int) == trim_start(
            chars@.subrange(from as int, to as int),
        ),
{
    let start = scan_forward(chars, from, to, CharClass::Space);
    proof {
        lemma_window_skip(chars@, from as int, to as int, start - from);
    }
    start
}

/// The window of `chars` that is left once white space is taken from both
/// ends of the window from `from` to `to`.
pub fn trim_window(chars: &Vec<char>, from: usize, to: usize) -> (window: (usize, usize))
    requires
        from <= to <= chars.len(),
    ensures
        from <= window.0 <= window.1 <= to,
        chars@.subrange(window.0 as int, window.1 as int) == trim(
            chars@.subrange(from as int, to as int),
        ),
{
    let lo = skip_spaces(chars, from, to);
    let hi = scan_backward(chars, lo, to, CharClass::Space);
    proof {
        lemma_window_take(chars@, lo as int, to as int, hi - lo);
    }
    (lo, hi)
}

/// Whether the characters of `prefix` stand in `chars` from `at` on, inside
/// the window that ends at `to`.
pub fn has_prefix_at(chars: &Vec<char>, at: usize, to: usize, prefix: &Vec<char>) -> (found: bool)
    requires
        at <= to <= chars.len(),
    ensures
        found == prefix@.is_prefix_of(chars@.subrange(at as int, to as int)),
{
    if prefix.len() > to - at {
        return false;
    }
    let mut i: usize = 0;
    while i < prefix.len()
        invariant
            at <= to <= chars.len(),
            prefix.len() <= to - at,
            0 <= i <= prefix.len(),
            forall|k: int| 0 <= k < i ==> prefix@[k] == chars@[at + k],
        decreases prefix.len() - i,
    {
        if prefix[i] != chars[at + i] {
            proof {
                let window = chars@.subrange(at as int, to as int);
                assert(window[i as int] == chars@[at + i]);
                if prefix@.is_prefix_of(window) {
                    assert(window.subrange(0, prefix@.len() as int)[i as int] == prefix@[i as int]);
                }
            }
            return false;
        }
        i += 1;
    }
    proof {
        let window = chars@.subrange(at as int, to as int);
        assert(window.subrange(0, prefix@.len() as int) =~= prefix@);
    }
    true
}

/// The first position at or after `from` at which `needle` stands in `s`,
/// if it stands anywhere from there on.
pub open spec fn find_from(s: Seq<char>, needle: Seq<char>, from: int) -> Option<int>
    decreases s.len() - from,
{
    if from < 0 || from > s.len() {
        None
    } else if needle.is_prefix_of(s.skip(from)) {
        Some(from)
    } else if from == s.len() {
        None
    } else {
        find_from(s, needle, from + 1)
    }
}

/// Finds the first position at or after `from` at which the characters of
/// `needle` stand in `chars`.
pub fn find_text(chars: &Vec<char>, from: usize, needle: &Vec<char>) -> (found: Option<usize>)
    requires
        from <= chars.len(),
    ensures
        match found {
            Some(at) => find_from(chars@, needle@, from as int) == Some(at as int) && from <= at
                && at + needle@.len() <= chars@.len(),
            None => find_from(chars@, needle@, from as int) is None,
        },
{
    let len = chars.len();
    let mut at: usize = from;
    loop
        invariant
            from <= at <= len,
            len == chars.len(),
            find_from(chars@, needle@, from as int) == find_from(chars@, needle@, at as int),
        decreases len - at,
    {
        proof {
            assert(chars@.skip(at as int) =~= chars@.subrange(at as int, len as int));
        }
        if has_prefix_at(chars, at, len, needle) {
            return Some(at);
        }
        if at == len {
            return None;
        }
        at += 1;
    }
}

/// Whether `text` begins with `prefix`.
pub fn starts_with(text: &str, prefix: &str) -> (found: bool)
    ensures
        found == prefix@.is_prefix_of(text@),
{
    let chars = chars_of(text);
    let wanted = chars_of(prefix);
    proof {
        assert(chars@.subrange(0, chars@.len() as int) =~= chars@);
    }
    has_prefix_at(&chars, 0, chars.len(), &wanted)
}

/// Whether two strings hold the same characters.
pub fn same_text(left: &str, right: &str) -> (same: bool)
    ensures
        same == (left@ == right@),
{
    let a = chars_of(left);
    let b = chars_of(right);
    if a.len() != b.len() {
        return false;
    }
    proof {
        assert(a@.subrange(0, a@.len() as int) =~= a@);
    }
    let same = has_prefix_at(&a, 0, a.len(), &b);
    proof {
        if same {
            assert(a@.subrange(0, b@.len() as int) =~= a@);
        }
    }
    same
}

/// `text` without white space at either end.
pub fn trimmed(text: &str) -> (inner: &str)
    ensures
        inner@ == trim(text@),
{
    let chars = chars_of(text);
    let (lo, hi) = trim_window(&chars, 0, chars.len());
    proof {
        assert(chars@.subrange(0, chars@.len() as int) =~= chars@);
    }
    text.substring_char(lo, hi)
}

} // verus!
