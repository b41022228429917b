use vstd::prelude::*;

verus! {

/// The lower-case form of an ASCII capital; any other character as it is.
pub open spec fn ascii_lower(c: char) -> char {
    if 'A' <= c && c <= 'Z' {
        ((c as u8) + 32) as char
    } else {
        c
    }
}

/// Whether two texts are the same once ASCII capitals count as their small letters.
pub open spec fn eq_ignore_ascii_case_spec(a: Seq<char>, b: Seq<char>) -> bool {
    &&& a.len() == b.len()
    &&& forall|i: int| 0 <= i < a.len() ==> ascii_lower(#[trigger] a[i]) == ascii_lower(b[i])
}

/// The lower-case form of an ASCII capital; any other character as it is.
pub fn to_ascii_lower(c: char) -> (r: char)
    ensures
        r == ascii_lower(c),
{
    if 'A' <= c && c <= 'Z' {
        ((c as u8) + 32u8) as char
    } else {
        c
    }
}

/// Compares two texts, taking an ASCII capital and its small letter for the same.
pub fn eq_ignore_ascii_case(a: &str, b: &str) -> (r: bool)
    ensures
        r == eq_ignore_ascii_case_spec(a@, b@),
{
    let n: usize = a.unicode_len();
    if b.unicode_len() != n {
        return false;
    }
    let mut i: usize = 0;
    while i < n
        invariant
            n == a@.len(),
            n == b@.len(),
            i <= n,
            forall|j: int| 0 <= j < i ==> ascii_lower(#[trigger] a@[j]) == ascii_lower(b@[j]),
        decreases n - i,
    {
        if to_ascii_lower(a.get_char(i)) != to_ascii_lower(b.get_char(i)) {
            return false;
        }
        i += 1;
    }
    true
}

/// Compares two texts.
pub fn text_eq(a: &str, b: &str) -> (r: bool)
    ensures
        r == (a@ == b@),
{
    let n: usize = a.unicode_len();
    if b.unicode_len() != n {
        return false;
    }
    let mut i: usize = 0;
    while i < n
        invariant
            n == a@.len(),
            n == b@.len(),
            i <= n,
            forall|j: int| 0 <= j < i ==> a@[j] == b@[j],
        decreases n - i,
    {
        if a.get_char(i) != b.get_char(i) {
            return false;
        }
        i += 1;
    }
    assert(a@ =~= b@);
    true
}

/// Where the piece of a text that holds position `i` ends, the text being cut
/// at each `sep`: at the first `sep` at or after `i`, or at the end of the text.
pub open spec fn piece_end(t: Seq<char>, sep: char, i: int) -> int
    decreases t.len() - i,
{
    if i >= t.len() {
        t.len() as int
    } else if t[i] == sep {
        i
    } else {
        piece_end(t, sep, i + 1)
    }
}

/// `piece_end` lies between `i` and the end, no `sep` stands before it from `i`
/// on, and one stands at it unless it is the end.
pub proof fn lemma_piece_end(t: Seq<char>, sep: char, i: int)
    requires
        0 <= i <= t.len(),
    ensures
        i <= piece_end(t, sep, i) <= t.len(),
        forall|j: int| i <= j < piece_end(t, sep, i) ==> t[j] != sep,
        piece_end(t, sep, i) < t.len() ==> t[piece_end(t, sep, i)] == sep,
    decreases t.len() - i,
{
    if i < t.len() && t[i] != sep {
        lemma_piece_end(t, sep, i + 1);
    }
}

/// The piece that starts at `start` ends at `e` if no `sep` stands between
/// them and `e` is a `sep` or the end.
pub proof fn lemma_piece_end_is(t: Seq<char>, sep: char, start: int, e: int)
    requires
        0 <= start <= e <= t.len(),
        forall|j: int| start <= j < e ==> t[j] != sep,
        e < t.len() ==> t[e] == sep,
    ensures
        piece_end(t, sep, start) == e,
    decreases e - start,
{
    if start < e {
        lemma_piece_end_is(t, sep, start + 1, e);
    }
}

/// Behind a text `a`, the pieces of `a + b` end where those of `b` end.
pub proof fn lemma_piece_end_shift(a: Seq<char>, b: Seq<char>, sep: char, j: int)
    requires
        0 <= j <= b.len(),
    ensures
        piece_end(a + b, sep, a.len() + j) == a.len() + piece_end(b, sep, j),
    decreases b.len() - j,
{
    if j < b.len() {
        if b[j] != sep {
            lemma_piece_end_shift(a, b, sep, j + 1);
        }
    }
}

/// Whether a path starts at the root of the file system.
pub open spec fn is_absolute_spec(p: Seq<char>) -> bool {
    p.len() > 0 && p[0] == '/'
}

/// Whether the first segment of a path is `.`, the directory that the path is
/// taken from.
pub open spec fn starts_with_cur_dir(p: Seq<char>) -> bool {
    p.len() > 0 && p[0] == '.' && (p.len() == 1 || p[1] == '/')
}

/// Whether the first component of a path is the name `~`.
pub open spec fn starts_with_tilde(p: Seq<char>) -> bool {
    p.len() > 0 && p[0] == '~' && (p.len() == 1 || p[1] == '/')
}

/// Where the segment of a path that holds position `i` ends: at the first
/// separator at or after `i`, or at the end of the path.
pub open spec fn segment_end(p: Seq<char>, i: int) -> int {
    piece_end(p, '/', i)
}

/// A segment that makes a component of its own: it is neither empty (two
/// separators in a row, or one at the end) nor `.`.
pub open spec fn is_name(segment: Seq<char>) -> bool {
    segment.len() > 0 && !(segment.len() == 1 && segment[0] == '.')
}

/// The places of the names of a path from position `i` on, each as the index
/// of its first character and the index behind its last one. `i` is the start
/// of a segment.
pub open spec fn name_spans_from(p: Seq<char>, i: int) -> Seq<(int, int)>
    decreases p.len() - i,
{
    if i < 0 || i >= p.len() {
        Seq::empty()
    } else {
        let e = segment_end(p, i);
        let first = if is_name(p.subrange(i, e)) {
            seq![(i, e)]
        } else {
            Seq::empty()
        };
        if i <= e < p.len() {
            first + name_spans_from(p, e + 1)
        } else {
            first
        }
    }
}

/// The places of the names of a path, in the order in which they stand.
pub open spec fn name_spans(p: Seq<char>) -> Seq<(int, int)> {
    name_spans_from(p, 0)
}

/// The names of a path: what stands between its separators, but for empty
/// segments and for `.`. A `..` is a name here.
pub open spec fn names(p: Seq<char>) -> Seq<Seq<char>> {
    Seq::new(name_spans(p).len(), |k: int| p.subrange(name_spans(p)[k].0, name_spans(p)[k].1))
}

/// How many components a path has: its names, and one more for the root or for
/// a `.` that it starts with.
pub open spec fn component_count(p: Seq<char>) -> nat {
    if is_absolute_spec(p) || starts_with_cur_dir(p) {
        name_spans(p).len() + 1
    } else {
        name_spans(p).len()
    }
}

/// Whether a name says in which directory it is to be found: it has more than
/// one component.
pub open spec fn has_separator_spec(p: Seq<char>) -> bool {
    component_count(p) > 1
}

/// A path with one more part added, as a `push` on a path buffer does it: an
/// absolute part takes the place of the path; any other part is set behind the
/// path, after a separator unless the path is empty or ends in one.
pub open spec fn push_spec(base: Seq<char>, part: Seq<char>) -> Seq<char> {
    if is_absolute_spec(part) {
        part
    } else if base.len() > 0 && base.last() != '/' {
        base + seq!['/'] + part
    } else {
        base + part
    }
}

/// A path with several parts added, one after the other.
pub open spec fn push_all(base: Seq<char>, parts: Seq<Seq<char>>) -> Seq<char>
    decreases parts.len(),
{
    if parts.len() == 0 {
        base
    } else {
        push_spec(push_all(base, parts.drop_last()), parts.last())
    }
}

/// A path made absolute against a working directory: an absolute path as it
/// is; any other as the working directory with the names of the path added, so
/// that a `.` at its start, and what else is no name, is left out.
pub open spec fn to_absolute_spec(p: Seq<char>, cwd: Seq<char>) -> Seq<char> {
    if is_absolute_spec(p) {
        p
    } else {
        push_all(cwd, names(p))
    }
}

/// The last name of a path, unless there is none or it is `..`.
pub open spec fn file_name_spec(p: Seq<char>) -> Option<Seq<char>> {
    let n = names(p);
    if n.len() > 0 && !(n.last().len() == 2 && n.last()[0] == '.' && n.last()[1] == '.') {
        Some(n.last())
    } else {
        None
    }
}

/// How much of a path stands before its names: the root, or a `.` at its start.
pub open spec fn head_len(p: Seq<char>) -> int {
    if is_absolute_spec(p) || starts_with_cur_dir(p) {
        1
    } else {
        0
    }
}

/// A path without its last component: the path up to the end of the name
/// before the last one, or up to the root or the `.` it starts with. A path
/// that is empty or only the root has none.
pub open spec fn parent_spec(p: Seq<char>) -> Option<Seq<char>> {
    let s = name_spans(p);
    if s.len() >= 2 {
        Some(p.subrange(0, s[s.len() - 2].1))
    } else if s.len() == 1 {
        Some(p.subrange(0, head_len(p)))
    } else if starts_with_cur_dir(p) {
        Some(Seq::empty())
    } else {
        None
    }
}

/// The index of the last `.` in a name, or -1.
pub open spec fn last_dot(name: Seq<char>) -> int
    decreases name.len(),
{
    if name.len() == 0 {
        -1
    } else if name.last() == '.' {
        name.len() - 1
    } else {
        last_dot(name.drop_last())
    }
}

/// The extension of a path: what follows the last `.` of its file name, if
/// that `.` is not the first character of the name.
pub open spec fn extension_spec(p: Seq<char>) -> Option<Seq<char>> {
    match file_name_spec(p) {
        Some(f) => if last_dot(f) > 0 {
            Some(f.skip(last_dot(f) + 1))
        } else {
            None
        },
        None => None,
    }
}

/// A suffix without the separator that it starts with.
pub open spec fn without_first(suffix: Seq<char>) -> Seq<char> {
    if suffix.len() > 0 {
        suffix.skip(1)
    } else {
        suffix
    }
}

/// Whether an extension is that of one of the suffixes, each taken without its
/// first character, and capitals taken for small letters.
pub open spec fn is_extension_in(ext: Seq<char>, suffixes: Seq<Seq<char>>) -> bool {
    exists|i: int|
        0 <= i < suffixes.len() && eq_ignore_ascii_case_spec(
            ext,
            without_first(#[trigger] suffixes[i]),
        )
}

/// Whether a path carries one of the suffixes by which a file counts as
/// runnable.
pub open spec fn has_executable_extension_spec(p: Seq<char>, suffixes: Seq<Seq<char>>) -> bool {
    match extension_spec(p) {
        Some(ext) => is_extension_in(ext, suffixes),
        None => false,
    }
}

/// Every span lies in the path, holds a name, and the spans follow one another
/// with a separator between them.
pub proof fn lemma_name_spans_from(p: Seq<char>, i: int)
    requires
        0 <= i,
    ensures
        forall|k: int|
            0 <= k < name_spans_from(p, i).len() ==> {
                let s = #[trigger] name_spans_from(p, i)[k];
                &&& i <= s.0 < s.1 <= p.len()
                &&& is_name(p.subrange(s.0, s.1))
                &&& segment_end(p, s.0) == s.1
            },
        forall|k: int, l: int|
            0 <= k < l < name_spans_from(p, i).len() ==> (#[trigger] name_spans_from(p, i)[k]).1
                < (#[trigger] name_spans_from(p, i)[l]).0,
    decreases p.len() - i,
{
    if i < p.len() {
        lemma_piece_end(p, '/', i);
        let e = segment_end(p, i);
        let all = name_spans_from(p, i);
        let first = if is_name(p.subrange(i, e)) {
            seq![(i, e)]
        } else {
            Seq::empty()
        };
        let rest = if e < p.len() {
            name_spans_from(p, e + 1)
        } else {
            Seq::empty()
        };
        if e < p.len() {
            lemma_name_spans_from(p, e + 1);
        }
        assert(all == first + rest);
        assert forall|k: int| 0 <= k < all.len() implies {
            let s = #[trigger] all[k];
            &&& i <= s.0 < s.1 <= p.len()
            &&& is_name(p.subrange(s.0, s.1))
            &&& segment_end(p, s.0) == s.1
        } by {}
        assert forall|k: int, l: int| 0 <= k < l < all.len() implies (#[trigger] all[k]).1 < (
        #[trigger] all[l]).0 by {}
    }
}

/// The places of the names of a path, as `name_spans` gives them.
pub open spec fn spans_of(v: Seq<(usize, usize)>) -> Seq<(int, int)> {
    Seq::new(v.len(), |k: int| (v[k].0 as int, v[k].1 as int))
}

/// Finds the names of a path.
pub fn find_name_spans(p: &str) -> (spans: Vec<(usize, usize)>)
    ensures
        spans_of(spans@) == name_spans(p@),
{
    let n: usize = p.unicode_len();
    let mut spans: Vec<(usize, usize)> = Vec::new();
    let mut start: usize = 0;
    let mut i: usize = 0;
    while i < n
        invariant
            n == p@.len(),
            start <= i <= n,
            forall|j: int| start <= j < i ==> p@[j] != '/',
            name_spans(p@) == spans_of(spans@) + name_spans_from(p@, start as int),
        decreases n - i,
    {
        if p.get_char(i) == '/' {
            proof {
                lemma_piece_end_is(p@, '/', start as int, i as int);
            }
            if i > start && !(i - start == 1 && p.get_char(start) == '.') {
                spans.push((start, i));
            }
            start = i + 1;
        }
        i += 1;
    }
    proof {
        lemma_piece_end_is(p@, '/', start as int, n as int);
    }
    if n > start && !(n - start == 1 && p.get_char(start) == '.') {
        spans.push((start, n));
    }
    spans
}

/// The names of a path, in the order in which they stand.
pub fn names_of(p: &str) -> (r: Vec<String>)
    ensures
        crate::sys::texts_of(r@) == names(p@),
{
    let spans = find_name_spans(p);
    let mut r: Vec<String> = Vec::new();
    let mut k: usize = 0;
    proof {
        lemma_name_spans_from(p@, 0);
    }
    while k < spans.len()
        invariant
            spans_of(spans@) == name_spans(p@),
            k <= spans.len(),
            r@.len() == k,
            forall|j: int| 0 <= j < k ==> (#[trigger] r@[j])@ == names(p@)[j],
            forall|j: int|
                0 <= j < name_spans(p@).len() ==> 0 <= (#[trigger] name_spans(p@)[j]).0
                    < name_spans(p@)[j].1 <= p@.len(),
        decreases spans.len() - k,
    {
        let span = spans[k];
        assert(spans_of(spans@)[k as int] == (span.0 as int, span.1 as int));
        r.push(String::from_str(p.substring_char(span.0, span.1)));
        k += 1;
    }
    r
}

/// Tells whether a path starts at the root.
pub fn is_absolute(p: &str) -> (b: bool)
    ensures
        b == is_absolute_spec(p@),
{
    p.unicode_len() > 0 && p.get_char(0) == '/'
}

/// Adds one part to a path.
pub fn push(base: String, part: &str) -> (r: String)
    ensures
        r@ == push_spec(base@, part@),
{
    if is_absolute(part) {
        return String::from_str(part);
    }
    let base_len: usize = base.as_str().unicode_len();
    let mut r = base;
    if base_len > 0 && r.as_str().get_char(base_len - 1) != '/' {
        proof {
            reveal_strlit("/");
        }
        r.append("/");
    }
    r.append(part);
    r
}

/// A directory and a name in it, as one path.
pub fn join(dir: &str, name: &str) -> (r: String)
    ensures
        r@ == push_spec(dir@, name@),
{
    push(String::from_str(dir), name)
}

/// A path that starts with `~` has that as its first name.
pub proof fn lemma_tilde_is_first_name(p: Seq<char>)
    requires
        starts_with_tilde(p),
    ensures
        names(p).len() >= 1,
        names(p)[0] == seq!['~'],
{
    lemma_piece_end_is(p, '/', 0, 1);
}

/// Adds the names of `p`, from the one at index `from` on, to a path.
pub fn push_names(base: String, p: &str, from: usize) -> (r: String)
    requires
        from <= names(p@).len(),
    ensures
        r@ == push_all(base@, names(p@).skip(from as int)),
{
    let spans = find_name_spans(p);
    let mut r = base;
    let mut k: usize = from;
    proof {
        lemma_name_spans_from(p@, 0);
    }
    while k < spans.len()
        invariant
            spans_of(spans@) == name_spans(p@),
            from <= k <= spans.len(),
            r@ == push_all(base@, names(p@).subrange(from as int, k as int)),
            forall|j: int|
                0 <= j < name_spans(p@).len() ==> 0 <= (#[trigger] name_spans(p@)[j]).0
                    < name_spans(p@)[j].1 <= p@.len(),
        decreases spans.len() - k,
    {
        let span = spans[k];
        assert(spans_of(spans@)[k as int] == (span.0 as int, span.1 as int));
        let name = p.substring_char(span.0, span.1);
        proof {
            let done = names(p@).subrange(from as int, k as int);
            let more = names(p@).subrange(from as int, k as int + 1);
            assert(more.drop_last() =~= done);
        }
        r = push(r, name);
        k += 1;
    }
    r
}

/// The last name of a path, unless there is none or it is `..`.
pub fn file_name(p: &str) -> (r: Option<String>)
    ensures
        crate::sys::text_of_option(r) == file_name_spec(p@),
{
    let spans = find_name_spans(p);
    let n: usize = spans.len();
    if n == 0 {
        return None;
    }
    proof {
        lemma_name_spans_from(p@, 0);
    }
    let span = spans[n - 1];
    let name = p.substring_char(span.0, span.1);
    if span.1 - span.0 == 2 && name.get_char(0) == '.' && name.get_char(1) == '.' {
        None
    } else {
        Some(String::from_str(name))
    }
}

/// A path without its last component.
pub fn parent(p: &str) -> (r: Option<String>)
    ensures
        crate::sys::text_of_option(r) == parent_spec(p@),
{
    let spans = find_name_spans(p);
    let n: usize = spans.len();
    let len: usize = p.unicode_len();
    let cur_dir: bool = len > 0 && p.get_char(0) == '.' && (len == 1 || p.get_char(1) == '/');
    proof {
        lemma_name_spans_from(p@, 0);
    }
    if n >= 2 {
        let span = spans[n - 2];
        Some(String::from_str(p.substring_char(0, span.1)))
    } else if n == 1 {
        if is_absolute(p) || cur_dir {
            Some(String::from_str(p.substring_char(0, 1)))
        } else {
            Some(String::from_str(p.substring_char(0, 0)))
        }
    } else if cur_dir {
        Some(String::from_str(p.substring_char(0, 0)))
    } else {
        None
    }
}

/// While the last character of a name is no `.`, the last `.` is that of the
/// name without it.
proof fn lemma_last_dot_take(name: Seq<char>, i: int)
    requires
        0 <= i <= name.len(),
        forall|j: int| i <= j < name.len() ==> name[j] != '.',
    ensures
        last_dot(name) == last_dot(name.take(i)),
    decreases name.len() - i,
{
    if i < name.len() {
        lemma_last_dot_take(name.drop_last(), i);
        assert(name.drop_last().take(i) =~= name.take(i));
    } else {
        assert(name.take(i) =~= name);
    }
}

/// The extension of a path.
pub fn extension(p: &str) -> (r: Option<String>)
    ensures
        crate::sys::text_of_option(r) == extension_spec(p@),
{
    match file_name(p) {
        None => None,
        Some(name) => {
            let len: usize = name.as_str().unicode_len();
            let mut i: usize = len;
            while i > 0
                invariant
                    file_name_spec(p@) == Some(name@),
                    len == name@.len(),
                    i <= len,
                    forall|j: int| i <= j < len ==> name@[j] != '.',
                decreases i,
            {
                if name.as_str().get_char(i - 1) == '.' {
                    proof {
                        lemma_last_dot_take(name@, i as int);
                    }
                    if i - 1 > 0 {
                        return Some(String::from_str(name.as_str().substring_char(i, len)));
                    } else {
                        return None;
                    }
                }
                i -= 1;
            }
            proof {
                lemma_last_dot_take(name@, 0);
            }
            None
        },
    }
}

/// Tells whether an extension is that of one of the suffixes.
pub fn extension_in(ext: &str, suffixes: &[String]) -> (b: bool)
    ensures
        b == is_extension_in(ext@, crate::sys::texts_of(suffixes@)),
{
    let ghost all = crate::sys::texts_of(suffixes@);
    let mut i: usize = 0;
    while i < suffixes.len()
        invariant
            i <= suffixes.len(),
            all == crate::sys::texts_of(suffixes@),
            forall|j: int| 0 <= j < i ==> !eq_ignore_ascii_case_spec(ext@, without_first(#[trigger] all[j])),
        decreases suffixes.len() - i,
    {
        let suffix: &str = suffixes[i].as_str();
        assert(suffix@ == all[i as int]);
        let len: usize = suffix.unicode_len();
        let rest: &str = if len > 0 {
            suffix.substring_char(1, len)
        } else {
            suffix
        };
        if eq_ignore_ascii_case(ext, rest) {
            return true;
        }
        i += 1;
    }
    false
}

/// What a path says of itself, before any file system is asked.
pub trait PathExt: Sized {
    /// The path as a text.
    spec fn text(&self) -> Seq<char>;

    /// Tells whether the path has more than one component, and so names the
    /// directory in which it is to be found.
    fn has_separator(&self) -> (b: bool)
        ensures
            b == has_separator_spec(self.text()),
    ;

    /// Makes the path absolute against `cwd`.
    fn to_absolute(self, cwd: &str) -> (r: String)
        ensures
            r@ == to_absolute_spec(self.text(), cwd@),
    ;

    /// Check if given path has extension which in the given vector.
    fn has_executable_extension(&self, pathext: &[String]) -> (b: bool)
        ensures
            b == has_executable_extension_spec(self.text(), crate::sys::texts_of(pathext@)),
    ;
}

impl PathExt for String {
    open spec fn text(&self) -> Seq<char> {
        self@
    }

    fn has_separator(&self) -> (b: bool) {
        let p: &str = self.as_str();
        let spans = find_name_spans(p);
        let len: usize = p.unicode_len();
        let cur_dir: bool = len > 0 && p.get_char(0) == '.' && (len == 1 || p.get_char(1) == '/');
        if is_absolute(p) || cur_dir {
            spans.len() >= 1
        } else {
            spans.len() > 1
        }
    }

    fn to_absolute(self, cwd: &str) -> (r: String) {
        if is_absolute(self.as_str()) {
            self
        } else {
            assert(names(self@).skip(0) =~= names(self@));
            push_names(String::from_str(cwd), self.as_str(), 0)
        }
    }

    fn has_executable_extension(&self, pathext: &[String]) -> (b: bool) {
        match extension(self.as_str()) {
            Some(ext) => extension_in(ext.as_str(), pathext),
            None => false,
        }
    }
}

/// The names of a path from position `i` on. `i` is the start of a segment.
pub open spec fn names_from(p: Seq<char>, i: int) -> Seq<Seq<char>>
    decreases p.len() - i,
{
    if i < 0 || i >= p.len() {
        Seq::empty()
    } else {
        let e = segment_end(p, i);
        let first = if is_name(p.subrange(i, e)) {
            seq![p.subrange(i, e)]
        } else {
            Seq::empty()
        };
        if i <= e < p.len() {
            first + names_from(p, e + 1)
        } else {
            first
        }
    }
}

/// The texts at the places that `name_spans_from` gives are the names that
/// `names_from` gives.
pub proof fn lemma_names_from(p: Seq<char>, i: int)
    requires
        0 <= i,
    ensures
        names_from(p, i) == Seq::new(
            name_spans_from(p, i).len(),
            |k: int| p.subrange(name_spans_from(p, i)[k].0, name_spans_from(p, i)[k].1),
        ),
    decreases p.len() - i,
{
    if i < p.len() {
        lemma_piece_end(p, '/', i);
        let e = segment_end(p, i);
        if e < p.len() {
            lemma_names_from(p, e + 1);
        }
    }
}

/// The names of a path are those that `names_from` gives from its start.
pub proof fn lemma_names(p: Seq<char>)
    ensures
        names(p) == names_from(p, 0),
{
    lemma_names_from(p, 0);
}

/// Behind a text `a`, the names of `a + b` are those of `b`.
pub proof fn lemma_names_from_shift(a: Seq<char>, b: Seq<char>, j: int)
    requires
        0 <= j,
    ensures
        names_from(a + b, a.len() + j) == names_from(b, j),
    decreases b.len() - j,
{
    if j < b.len() {
        lemma_piece_end_shift(a, b, '/', j);
        lemma_piece_end(b, '/', j);
        let e = segment_end(b, j);
        assert((a + b).subrange(a.len() + j, a.len() + e) =~= b.subrange(j, e));
        if e < b.len() {
            lemma_names_from_shift(a, b, e + 1);
        }
    }
}

/// The names of a path that ends in a separator, with a text set behind it,
/// are the names of the path and then those of the text.
pub proof fn lemma_names_from_concat(a: Seq<char>, b: Seq<char>, i: int)
    requires
        a.len() > 0,
        a.last() == '/',
        0 <= i <= a.len(),
    ensures
        names_from(a + b, i) == names_from(a, i) + names_from(b, 0),
    decreases a.len() - i,
{
    if i == a.len() {
        lemma_names_from_shift(a, b, 0);
    } else {
        lemma_piece_end(a, '/', i);
        let e = segment_end(a, i);
        assert(e < a.len()) by {}
        lemma_piece_end_is(a + b, '/', i, e);
        assert((a + b).subrange(i, e) =~= a.subrange(i, e));
        lemma_names_from_concat(a, b, e + 1);
    }
}

/// A separator at the end of a path adds no name.
pub proof fn lemma_names_from_trailing(a: Seq<char>, i: int)
    requires
        0 <= i <= a.len(),
    ensures
        names_from(a + seq!['/'], i) == names_from(a, i),
    decreases a.len() - i,
{
    let b = a + seq!['/'];
    if i == a.len() {
        assert(names_from(b, i + 1) =~= Seq::<Seq<char>>::empty());
    } else {
        lemma_piece_end(a, '/', i);
        let e = segment_end(a, i);
        assert(b[e] == '/') by {}
        lemma_piece_end_is(b, '/', i, e);
        assert(b.subrange(i, e) =~= a.subrange(i, e));
        if e < a.len() {
            lemma_names_from_trailing(a, e + 1);
        } else {
            assert(names_from(b, e + 1) =~= Seq::<Seq<char>>::empty());
        }
    }
}

/// Whether a text is one name: it holds no separator, is not empty and is not
/// `.`.
pub open spec fn is_plain_name(n: Seq<char>) -> bool {
    &&& is_name(n)
    &&& forall|j: int| 0 <= j < n.len() ==> n[j] != '/'
}

/// A text that is one name has itself as its only name.
pub proof fn lemma_names_of_plain_name(n: Seq<char>)
    requires
        is_plain_name(n),
    ensures
        names(n) == seq![n],
{
    lemma_names(n);
    lemma_piece_end_is(n, '/', 0, n.len() as int);
    assert(n.subrange(0, n.len() as int) =~= n);
}

/// Each name of a path is one name.
pub proof fn lemma_names_are_plain(p: Seq<char>)
    ensures
        forall|k: int| 0 <= k < names(p).len() ==> is_plain_name(#[trigger] names(p)[k]),
{
    lemma_name_spans_from(p, 0);
    assert forall|k: int| 0 <= k < names(p).len() implies is_plain_name(#[trigger] names(p)[k]) by {
        let s = name_spans(p)[k];
        lemma_piece_end(p, '/', s.0);
    }
}

/// A part that is not absolute, added to a path, adds its names behind those
/// of the path.
pub proof fn lemma_names_of_push(base: Seq<char>, part: Seq<char>)
    requires
        !is_absolute_spec(part),
    ensures
        names(push_spec(base, part)) == names(base) + names(part),
{
    lemma_names(base);
    lemma_names(part);
    lemma_names(push_spec(base, part));
    if base.len() == 0 {
    } else if base.last() == '/' {
        lemma_names_from_concat(base, part, 0);
    } else {
        let with_sep = base + seq!['/'];
        lemma_names_from_trailing(base, 0);
        lemma_names_from_concat(with_sep, part, 0);
    }
}

/// Names added to a path stand behind the names of the path.
pub proof fn lemma_names_of_push_all(base: Seq<char>, parts: Seq<Seq<char>>)
    requires
        forall|k: int| 0 <= k < parts.len() ==> is_plain_name(#[trigger] parts[k]),
    ensures
        names(push_all(base, parts)) == names(base) + parts,
    decreases parts.len(),
{
    if parts.len() > 0 {
        let before = parts.drop_last();
        lemma_names_of_push_all(base, before);
        lemma_names_of_plain_name(parts.last());
        lemma_names_of_push(push_all(base, before), parts.last());
    }
}

/// A path with a part added that is not absolute starts with the path.
pub proof fn lemma_push_keeps_prefix(base: Seq<char>, part: Seq<char>)
    requires
        !is_absolute_spec(part),
    ensures
        base.is_prefix_of(push_spec(base, part)),
{
}

/// A path with names added starts with the path.
pub proof fn lemma_push_all_keeps_prefix(base: Seq<char>, parts: Seq<Seq<char>>)
    requires
        forall|k: int| 0 <= k < parts.len() ==> is_plain_name(#[trigger] parts[k]),
    ensures
        base.is_prefix_of(push_all(base, parts)),
    decreases parts.len(),
{
    if parts.len() > 0 {
        let before = push_all(base, parts.drop_last());
        lemma_push_all_keeps_prefix(base, parts.drop_last());
        lemma_push_keeps_prefix(before, parts.last());
    }
}

/// A path made absolute against a working directory lies below that
/// directory: it starts with the directory, and its names are those of the
/// directory and then its own.
pub proof fn lemma_to_absolute_below(p: Seq<char>, cwd: Seq<char>)
    requires
        !is_absolute_spec(p),
    ensures
        names(to_absolute_spec(p, cwd)) == names(cwd) + names(p),
        cwd.is_prefix_of(to_absolute_spec(p, cwd)),
{
    lemma_names_are_plain(p);
    lemma_names_of_push_all(cwd, names(p));
    lemma_push_all_keeps_prefix(cwd, names(p));
}

/// From the start of one of its names on, a path has that name and the names
/// behind it; each name starts at the start of the path or behind a separator.
pub proof fn lemma_spans_from_span(p: Seq<char>, i: int, k: int)
    requires
        0 <= i,
        0 <= k < name_spans_from(p, i).len(),
    ensures
        name_spans_from(p, name_spans_from(p, i)[k].0) == name_spans_from(p, i).skip(k),
        name_spans_from(p, i)[k].0 == i || p[name_spans_from(p, i)[k].0 - 1] == '/',
        i <= name_spans_from(p, i)[k].0,
    decreases p.len() - i,
{
    lemma_piece_end(p, '/', i);
    let e = segment_end(p, i);
    if is_name(p.subrange(i, e)) {
        if k > 0 {
            lemma_spans_from_span(p, e + 1, k - 1);
        }
    } else {
        lemma_spans_from_span(p, e + 1, k);
    }
}

/// Where a path has a name, it has a parent, and the names of the parent are
/// those of the path but for the last one.
pub proof fn lemma_parent_names(p: Seq<char>)
    requires
        names(p).len() > 0,
    ensures
        parent_spec(p) is Some,
        names(parent_spec(p).unwrap()) == names(p).drop_last(),
{
    let spans = name_spans(p);
    let n = spans.len() as int;
    let dir = parent_spec(p).unwrap();
    lemma_name_spans_from(p, 0);
    lemma_names(dir);
    if n >= 2 {
        let m = spans[n - 2].1;
        let last = spans[n - 1];
        lemma_piece_end(p, '/', spans[n - 2].0);
        let with_sep = p.subrange(0, m + 1);
        let rest = p.subrange(m + 1, p.len() as int);
        assert(with_sep =~= dir + seq!['/']);
        assert(p =~= with_sep + rest);
        lemma_names(p);
        lemma_names_from_concat(with_sep, rest, 0);
        lemma_names_from_trailing(dir, 0);
        // what stands behind the separator holds the last name alone
        lemma_names_from_shift(with_sep, rest, 0);
        lemma_names_from(p, m + 1);
        lemma_spans_from_span(p, 0, n - 2);
        lemma_piece_end(p, '/', spans[n - 2].0);
        assert(name_spans_from(p, m + 1) =~= spans.skip(n - 1)) by {
            let from_span = name_spans_from(p, spans[n - 2].0);
            assert(from_span.skip(1) =~= name_spans_from(p, m + 1));
        }
    } else {
        if head_len(p) > 0 {
            if dir[0] == '/' {
                assert(names_from(dir, 1) =~= Seq::<Seq<char>>::empty());
            } else {
                lemma_piece_end_is(dir, '/', 0, 1);
            }
        }
    }
}

/// A text set behind a path changes its last name at most, and what stands
/// behind that name: the names before the last one stay, and none is lost.
pub proof fn lemma_names_with_suffix(base: Seq<char>, suffix: Seq<char>)
    requires
        names(base).len() > 0,
    ensures
        names(base + suffix).len() >= names(base).len(),
        names(base + suffix).take(names(base).len() - 1) == names(base).drop_last(),
{
    let spans = name_spans(base);
    let n = spans.len() as int;
    lemma_name_spans_from(base, 0);
    lemma_spans_from_span(base, 0, n - 1);
    let start = spans[n - 1].0;
    let front = base.subrange(0, start);
    let tail = base.subrange(start, base.len() as int);
    assert(base =~= front + tail);
    assert(base + suffix =~= front + (tail + suffix));
    lemma_names(base);
    lemma_names(base + suffix);
    // the tail starts with the last name, with or without the suffix
    lemma_piece_end(base, '/', start);
    lemma_piece_end_shift(front, tail, '/', 0);
    lemma_piece_end(tail, '/', 0);
    let long = tail + suffix;
    let tail_end = segment_end(tail, 0);
    lemma_piece_end(long, '/', 0);
    let long_end = segment_end(long, 0);
    assert(long_end >= tail_end) by {}
    assert(is_name(long.subrange(0, long_end))) by {}
    // the names of the tail are the last name alone
    lemma_names_from(base, start);
    lemma_names_from_shift(front, tail, 0);
    if start > 0 {
        lemma_names_from_concat(front, tail, 0);
        lemma_names_from_concat(front, long, 0);
    }
}

/// A text that is a name but for the case of its letters is a name.
pub proof fn lemma_plain_name_any_case(name: Seq<char>, other: Seq<char>)
    requires
        is_plain_name(name),
        eq_ignore_ascii_case_spec(other, name),
    ensures
        is_plain_name(other),
{
}

} // verus!
