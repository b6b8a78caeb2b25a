use vstd::prelude::*;

use crate::error::BuildError;

verus! {

/// One file of the source tree: the rank of the search directory that holds
/// it, its name relative to that directory, and its text.
pub struct SourceFile {
    pub dir: usize,
    pub name: Vec<char>,
    pub text: Vec<char>,
}

/// The files of the search directories, listed in priority order: when two
/// entries share a name, the earlier one wins.
pub struct SourceTree {
    pub files: Vec<SourceFile>,
}

/// A file as plain values: directory rank, name, text.
pub type FileModel = (nat, Seq<char>, Seq<char>);

impl View for SourceFile {
    type V = FileModel;

    open spec fn view(&self) -> FileModel {
        (self.dir as nat, self.name@, self.text@)
    }
}

impl View for SourceTree {
    type V = Seq<FileModel>;

    open spec fn view(&self) -> Seq<FileModel> {
        self.files@.map_values(|f: SourceFile| f@)
    }
}

/// The names held in a list of character vectors, as plain sequences.
pub open spec fn names_view(v: Seq<Vec<char>>) -> Seq<Seq<char>> {
    v.map_values(|x: Vec<char>| x@)
}

/// Every name that occurs in the tree.
pub open spec fn tree_names(tree: Seq<FileModel>) -> Set<Seq<char>> {
    tree.map_values(|f: FileModel| f.1).to_set()
}

/// How many names of the tree have not been inlined yet.
pub open spec fn unvisited(tree: Seq<FileModel>, visited: Seq<Seq<char>>) -> nat {
    tree_names(tree).difference(visited.to_set()).len()
}

/// The text of the first entry from position `i` on named `name`.
pub open spec fn resolve_from(tree: Seq<FileModel>, name: Seq<char>, i: int) -> Option<Seq<char>>
    decreases tree.len() - i,
{
    if i < 0 || i >= tree.len() {
        None
    } else if tree[i].1 == name {
        Some(tree[i].2)
    } else {
        resolve_from(tree, name, i + 1)
    }
}

/// The text that a directive naming `name` resolves to: that of the first
/// search directory holding a file of that name.
pub open spec fn resolve(tree: Seq<FileModel>, name: Seq<char>) -> Option<Seq<char>> {
    resolve_from(tree, name, 0)
}

/// The text of the first entry from position `i` on that directory `dir` holds
/// under `name`.
pub open spec fn file_in_from(tree: Seq<FileModel>, dir: nat, name: Seq<char>, i: int) -> Option<
    Seq<char>,
>
    decreases tree.len() - i,
{
    if i < 0 || i >= tree.len() {
        None
    } else if tree[i].0 == dir && tree[i].1 == name {
        Some(tree[i].2)
    } else {
        file_in_from(tree, dir, name, i + 1)
    }
}

/// The text of the file `name` of directory `dir`, if it holds one.
pub open spec fn file_in(tree: Seq<FileModel>, dir: nat, name: Seq<char>) -> Option<Seq<char>> {
    file_in_from(tree, dir, name, 0)
}

// ---------------------------------------------------------------------------
// Lines
/// Position of the first line feed at or after `i`, or the length.
pub open spec fn line_end(s: Seq<char>, i: int) -> int
    decreases s.len() - i,
{
    if i < 0 || i >= s.len() || s[i] == '\n' {
        i
    } else {
        line_end(s, i + 1)
    }
}

/// A line that was ended by a line feed loses one trailing carriage return.
pub open spec fn strip_cr(l: Seq<char>) -> Seq<char> {
    if l.len() > 0 && l.last() == '\r' {
        l.drop_last()
    } else {
        l
    }
}

/// The lines of `s` from position `start` on: split at each line feed, a
/// carriage return before it dropped, and no empty line after a final line
/// feed.
pub open spec fn lines_from(s: Seq<char>, start: int) -> Seq<Seq<char>>
    decreases s.len() - start,
{
    if start < 0 || start >= s.len() {
        Seq::empty()
    } else {
        let e = line_end(s, start);
        proof {
            lemma_line_end(s, start);
        }
        if e >= s.len() {
            seq![s.subrange(start, s.len() as int)]
        } else {
            seq![strip_cr(s.subrange(start, e))] + lines_from(s, e + 1)
        }
    }
}

/// The lines of a text.
pub open spec fn lines(s: Seq<char>) -> Seq<Seq<char>> {
    lines_from(s, 0)
}

pub proof fn lemma_line_end(s: Seq<char>, i: int)
    requires
        0 <= i <= s.len(),
    ensures
        i <= line_end(s, i) <= s.len(),
        line_end(s, i) < s.len() ==> s[line_end(s, i)] == '\n',
        forall|k: int| i <= k < line_end(s, i) ==> s[k] != '\n',
    decreases s.len() - i,
{
    if i < s.len() && s[i] != '\n' {
        lemma_line_end(s, i + 1);
    }
}

// ---------------------------------------------------------------------------
// Directive lines
/// Unicode white space.
pub open spec fn is_space(c: char) -> bool {
    ('\u{9}' <= c && c <= '\u{d}') || c == ' ' || c == '\u{85}' || c == '\u{a0}' || c
        == '\u{1680}' || ('\u{2000}' <= c && c <= '\u{200a}') || c == '\u{2028}' || c
        == '\u{2029}' || c == '\u{202f}' || c == '\u{205f}' || c == '\u{3000}'
}

/// The first position at or after `i` that does not hold white space.
pub open spec fn skip_space(l: Seq<char>, i: int) -> int
    decreases l.len() - i,
{
    if 0 <= i < l.len() && is_space(l[i]) {
        skip_space(l, i + 1)
    } else {
        i
    }
}

/// The first position at or after `i` that holds a double quote, or the length.
pub open spec fn quote_end(l: Seq<char>, i: int) -> int
    decreases l.len() - i,
{
    if 0 <= i < l.len() && l[i] != '"' {
        quote_end(l, i + 1)
    } else {
        i
    }
}

/// The word after `#` in a local directive.
pub open spec fn directive_word() -> Seq<char> {
    seq!['i', 'n', 'c', 'l', 'u', 'd', 'e']
}

/// The file named by a line that opens with white space, `#`, white space,
/// the directive word, at least one white space, and a non-empty name in
/// double quotes. Anything after the closing quote is ignored; the angle
/// bracket form is never matched.
pub open spec fn directive_target(l: Seq<char>) -> Option<Seq<char>> {
    let a = skip_space(l, 0);
    if a < l.len() && l[a] == '#' {
        let b = skip_space(l, a + 1);
        if b + 7 <= l.len() && l.subrange(b, b + 7) == directive_word() {
            let c = b + 7;
            let d = skip_space(l, c);
            if c < d < l.len() && l[d] == '"' {
                let e = quote_end(l, d + 1);
                if d + 1 < e < l.len() {
                    Some(l.subrange(d + 1, e))
                } else {
                    None
                }
            } else {
                None
            }
        } else {
            None
        }
    } else {
        None
    }
}

// ---------------------------------------------------------------------------
// Expansion
/// The marker written before the text of a file.
pub open spec fn begin_marker(name: Seq<char>) -> Seq<char> {
    "/* begin file "@ + name + " */\n"@
}

/// The marker written after the text of a file.
pub open spec fn end_marker(name: Seq<char>) -> Seq<char> {
    "/* end file "@ + name + " */\n"@
}

/// Expands the lines `ls` against the tree, given the names already inlined.
/// Returns the text written and the names inlined once the lines are done.
/// A directive naming an inlined file is dropped; one naming a file of the
/// tree inlines it, between markers, after adding its name; any other line,
/// an unresolved directive too, is copied with a line feed.
pub open spec fn expand(tree: Seq<FileModel>, ls: Seq<Seq<char>>, visited: Seq<Seq<char>>) -> (
    Seq<char>,
    Seq<Seq<char>>,
)
    decreases unvisited(tree, visited), ls.len(),
{
    if ls.len() == 0 {
        (Seq::empty(), visited)
    } else {
        let l = ls[0];
        let copied = l.push('\n');
        match directive_target(l) {
            Some(t) => {
                if visited.contains(t) {
                    expand(tree, ls.drop_first(), visited)
                } else {
                    match resolve(tree, t) {
                        Some(text) => {
                            proof {
                                lemma_resolve_in_tree(tree, t, 0);
                                lemma_visit_decreases(tree, visited, t);
                            }
                            let inner = expand(tree, lines(text), visited.push(t));
                            let sub = begin_marker(t) + inner.0 + end_marker(t);
                            if unvisited(tree, inner.1) <= unvisited(tree, visited) {
                                let rest = expand(tree, ls.drop_first(), inner.1);
                                (sub + rest.0, rest.1)
                            } else {
                                (sub, inner.1)
                            }
                        },
                        None => {
                            let rest = expand(tree, ls.drop_first(), visited);
                            (copied + rest.0, rest.1)
                        },
                    }
                }
            },
            None => {
                let rest = expand(tree, ls.drop_first(), visited);
                (copied + rest.0, rest.1)
            },
        }
    }
}

/// The output for one file: its markers around its expanded lines, and the
/// names inlined afterwards.
pub open spec fn emit(tree: Seq<FileModel>, name: Seq<char>, text: Seq<char>, visited: Seq<Seq<char>>) -> (
    Seq<char>,
    Seq<Seq<char>>,
) {
    let r = expand(tree, lines(text), visited);
    (begin_marker(name) + r.0 + end_marker(name), r.1)
}

pub proof fn lemma_resolve_in_tree(tree: Seq<FileModel>, name: Seq<char>, i: int)
    requires
        resolve_from(tree, name, i) is Some,
    ensures
        tree_names(tree).contains(name),
    decreases tree.len() - i,
{
    if tree[i].1 == name {
        assert(tree.map_values(|f: FileModel| f.1)[i] == name);
    } else {
        lemma_resolve_in_tree(tree, name, i + 1);
    }
}

pub proof fn lemma_visit_decreases(tree: Seq<FileModel>, visited: Seq<Seq<char>>, t: Seq<char>)
    requires
        tree_names(tree).contains(t),
        !visited.contains(t),
    ensures
        unvisited(tree, visited.push(t)) < unvisited(tree, visited),
{
    broadcast use vstd::seq_lib::seq_to_set_is_finite;

    let v1 = visited.push(t);
    assert forall|x: Seq<char>| v1.contains(x) <==> (visited.contains(x) || x == t) by {
        if v1.contains(x) {
            let k = choose|k: int| 0 <= k < v1.len() && v1[k] == x;
            if k < visited.len() {
                assert(visited[k] == x);
            }
        }
        if visited.contains(x) {
            let k = choose|k: int| 0 <= k < visited.len() && visited[k] == x;
            assert(v1[k] == x);
        }
        if x == t {
            assert(v1[visited.len() as int] == t);
        }
    }
    assert(v1.to_set() =~= visited.to_set().insert(t));
    tree_names(tree).lemma_set_insert_diff_decreases(visited.to_set(), t);
}

/// Names inlined earlier stay inlined: `big` extends `small`.
pub open spec fn extends(big: Seq<Seq<char>>, small: Seq<Seq<char>>) -> bool {
    small.len() <= big.len() && big.subrange(0, small.len() as int) == small
}

pub proof fn lemma_extends_unvisited(tree: Seq<FileModel>, big: Seq<Seq<char>>, small: Seq<Seq<char>>)
    requires
        extends(big, small),
    ensures
        unvisited(tree, big) <= unvisited(tree, small),
{
    broadcast use vstd::seq_lib::seq_to_set_is_finite;

    assert forall|x: Seq<char>| small.contains(x) implies big.contains(x) by {
        let k = choose|k: int| 0 <= k < small.len() && small[k] == x;
        assert(big[k] == big.subrange(0, small.len() as int)[k]);
    }
    let n = tree_names(tree);
    vstd::set_lib::lemma_len_difference(n, small.to_set());
    vstd::set_lib::lemma_set_subset_finite(n, n.difference(small.to_set()));
    vstd::set_lib::lemma_len_subset(
        n.difference(big.to_set()),
        n.difference(small.to_set()),
    );
}

proof fn lemma_extends_trans(a: Seq<Seq<char>>, b: Seq<Seq<char>>, c: Seq<Seq<char>>)
    requires
        extends(a, b),
        extends(b, c),
    ensures
        extends(a, c),
{
    assert(a.subrange(0, c.len() as int) =~= b.subrange(0, c.len() as int));
}

/// Expansion only ever adds names to the visited list.
pub proof fn lemma_expand_extends(tree: Seq<FileModel>, ls: Seq<Seq<char>>, visited: Seq<Seq<char>>)
    ensures
        extends(expand(tree, ls, visited).1, visited),
    decreases unvisited(tree, visited), ls.len(),
{
    assert(extends(visited, visited)) by {
        assert(visited.subrange(0, visited.len() as int) =~= visited);
    }
    if ls.len() > 0 {
        let l = ls[0];
        match directive_target(l) {
            Some(t) => {
                if visited.contains(t) {
                    lemma_expand_extends(tree, ls.drop_first(), visited);
                } else {
                    match resolve(tree, t) {
                        Some(text) => {
                            lemma_resolve_in_tree(tree, t, 0);
                            lemma_visit_decreases(tree, visited, t);
                            let v1 = visited.push(t);
                            assert(extends(v1, visited)) by {
                                assert(v1.subrange(0, visited.len() as int) =~= visited);
                            }
                            lemma_expand_extends(tree, lines(text), v1);
                            let inner = expand(tree, lines(text), v1);
                            lemma_extends_trans(inner.1, v1, visited);
                            lemma_extends_unvisited(tree, inner.1, visited);
                            lemma_expand_extends(tree, ls.drop_first(), inner.1);
                            lemma_extends_trans(expand(tree, ls.drop_first(), inner.1).1, inner.1, visited);
                        },
                        None => {
                            lemma_expand_extends(tree, ls.drop_first(), visited);
                        },
                    }
                }
            },
            None => {
                lemma_expand_extends(tree, ls.drop_first(), visited);
            },
        }
    }
}

proof fn lemma_extends_contains(big: Seq<Seq<char>>, small: Seq<Seq<char>>, x: Seq<char>)
    requires
        extends(big, small),
        small.contains(x),
    ensures
        big.contains(x),
{
    let k = choose|k: int| 0 <= k < small.len() && small[k] == x;
    assert(big[k] == big.subrange(0, small.len() as int)[k]);
}

proof fn lemma_push_extends(v: Seq<Seq<char>>, t: Seq<char>)
    ensures
        extends(v.push(t), v),
        v.push(t).contains(t),
{
    assert(v.push(t).subrange(0, v.len() as int) =~= v);
    assert(v.push(t)[v.len() as int] == t);
}

/// Once a directive line naming a file of the tree has been expanded, that
/// name is in the visited list.
pub proof fn lemma_directive_visits(
    tree: Seq<FileModel>,
    ls: Seq<Seq<char>>,
    visited: Seq<Seq<char>>,
    i: int,
    s: Seq<char>,
)
    requires
        0 <= i < ls.len(),
        directive_target(ls[i]) == Some(s),
        resolve(tree, s) is Some,
    ensures
        expand(tree, ls, visited).1.contains(s),
    decreases unvisited(tree, visited), ls.len(),
{
    let l = ls[0];
    match directive_target(l) {
        Some(t) => {
            if visited.contains(t) {
                if i == 0 {
                    lemma_expand_extends(tree, ls.drop_first(), visited);
                    lemma_extends_contains(expand(tree, ls.drop_first(), visited).1, visited, s);
                } else {
                    lemma_directive_visits(tree, ls.drop_first(), visited, i - 1, s);
                }
            } else {
                match resolve(tree, t) {
                    Some(text) => {
                        lemma_resolve_in_tree(tree, t, 0);
                        lemma_visit_decreases(tree, visited, t);
                        let v1 = visited.push(t);
                        lemma_push_extends(visited, t);
                        lemma_expand_extends(tree, lines(text), v1);
                        let inner = expand(tree, lines(text), v1);
                        lemma_extends_trans(inner.1, v1, visited);
                        lemma_extends_unvisited(tree, inner.1, visited);
                        let rest = expand(tree, ls.drop_first(), inner.1);
                        if i == 0 {
                            lemma_extends_contains(inner.1, v1, s);
                            lemma_expand_extends(tree, ls.drop_first(), inner.1);
                            lemma_extends_contains(rest.1, inner.1, s);
                        } else {
                            lemma_directive_visits(tree, ls.drop_first(), inner.1, i - 1, s);
                        }
                    },
                    None => {
                        lemma_directive_visits(tree, ls.drop_first(), visited, i - 1, s);
                    },
                }
            }
        },
        None => {
            lemma_directive_visits(tree, ls.drop_first(), visited, i - 1, s);
        },
    }
}

/// A directive line naming an inlined file contributes nothing: expanding
/// the lines gives what expanding them without that line gives.
pub proof fn lemma_visited_directive_elided(
    tree: Seq<FileModel>,
    ls: Seq<Seq<char>>,
    visited: Seq<Seq<char>>,
    j: int,
    s: Seq<char>,
)
    requires
        0 <= j < ls.len(),
        directive_target(ls[j]) == Some(s),
        visited.contains(s),
    ensures
        expand(tree, ls, visited) == expand(tree, ls.remove(j), visited),
    decreases unvisited(tree, visited), ls.len(),
{
    if j == 0 {
        assert(ls.remove(0) =~= ls.drop_first());
    } else {
        let short = ls.remove(j);
        assert(short[0] == ls[0]);
        assert(short.drop_first() =~= ls.drop_first().remove(j - 1));
        let l = ls[0];
        match directive_target(l) {
            Some(t) => {
                if visited.contains(t) {
                    lemma_visited_directive_elided(tree, ls.drop_first(), visited, j - 1, s);
                } else {
                    match resolve(tree, t) {
                        Some(text) => {
                            lemma_resolve_in_tree(tree, t, 0);
                            lemma_visit_decreases(tree, visited, t);
                            let v1 = visited.push(t);
                            lemma_push_extends(visited, t);
                            lemma_expand_extends(tree, lines(text), v1);
                            let inner = expand(tree, lines(text), v1);
                            lemma_extends_trans(inner.1, v1, visited);
                            lemma_extends_unvisited(tree, inner.1, visited);
                            lemma_extends_contains(inner.1, visited, s);
                            lemma_visited_directive_elided(tree, ls.drop_first(), inner.1, j - 1, s);
                        },
                        None => {
                            lemma_visited_directive_elided(tree, ls.drop_first(), visited, j - 1, s);
                        },
                    }
                }
            },
            None => {
                lemma_visited_directive_elided(tree, ls.drop_first(), visited, j - 1, s);
            },
        }
    }
}

/// Roots expanded one after the other against one visited list: when a first
/// root `x` has a directive naming a file `s` of the tree, a directive naming
/// `s` in a later root `y` is dropped, so `s` is inlined under `x` alone.
pub proof fn lemma_cross_root_dedup(
    tree: Seq<FileModel>,
    x: Seq<Seq<char>>,
    y: Seq<Seq<char>>,
    visited: Seq<Seq<char>>,
    s: Seq<char>,
    i: int,
    j: int,
)
    requires
        0 <= i < x.len(),
        directive_target(x[i]) == Some(s),
        resolve(tree, s) is Some,
        0 <= j < y.len(),
        directive_target(y[j]) == Some(s),
    ensures
        expand(tree, x, visited).1.contains(s),
        expand(tree, y, expand(tree, x, visited).1) == expand(
            tree,
            y.remove(j),
            expand(tree, x, visited).1,
        ),
{
    lemma_directive_visits(tree, x, visited, i, s);
    lemma_visited_directive_elided(tree, y, expand(tree, x, visited).1, j, s);
}

/// A directive naming no file of the tree, and not inlined before, is copied
/// as it is, with its line feed, and expansion goes on with the same list.
pub proof fn lemma_unresolved_passes_through(
    tree: Seq<FileModel>,
    ls: Seq<Seq<char>>,
    visited: Seq<Seq<char>>,
    t: Seq<char>,
)
    requires
        ls.len() > 0,
        directive_target(ls[0]) == Some(t),
        resolve(tree, t) is None,
        !visited.contains(t),
    ensures
        expand(tree, ls, visited).0 == ls[0].push('\n') + expand(tree, ls.drop_first(), visited).0,
        expand(tree, ls, visited).1 == expand(tree, ls.drop_first(), visited).1,
{
}

// ---------------------------------------------------------------------------
// Executable side
fn is_space_char(c: char) -> (r: bool)
    ensures
        r == is_space(c),
{
    ('\u{9}' <= c && c <= '\u{d}') || c == ' ' || c == '\u{85}' || c == '\u{a0}' || c
        == '\u{1680}' || ('\u{2000}' <= c && c <= '\u{200a}') || c == '\u{2028}' || c
        == '\u{2029}' || c == '\u{202f}' || c == '\u{205f}' || c == '\u{3000}'
}

fn skip_space_at(l: &Vec<char>, i: usize) -> (r: usize)
    requires
        i <= l@.len(),
    ensures
        r == skip_space(l@, i as int),
        i <= r <= l@.len(),
{
    let mut j: usize = i;
    while j < l.len() && is_space_char(l[j])
        invariant
            i <= j <= l@.len(),
            skip_space(l@, j as int) == skip_space(l@, i as int),
        decreases l@.len() - j,
    {
        j = j + 1;
    }
    j
}

fn quote_end_at(l: &Vec<char>, i: usize) -> (r: usize)
    requires
        i <= l@.len(),
    ensures
        r == quote_end(l@, i as int),
        i <= r <= l@.len(),
{
    let mut j: usize = i;
    while j < l.len() && l[j] != '"'
        invariant
            i <= j <= l@.len(),
            quote_end(l@, j as int) == quote_end(l@, i as int),
        decreases l@.len() - j,
    {
        j = j + 1;
    }
    j
}

/// A copy of the characters `lo..hi` of `s`.
pub fn copy_range(s: &Vec<char>, lo: usize, hi: usize) -> (r: Vec<char>)
    requires
        lo <= hi <= s@.len(),
    ensures
        r@ == s@.subrange(lo as int, hi as int),
{
    let mut r: Vec<char> = Vec::new();
    let mut k: usize = lo;
    while k < hi
        invariant
            lo <= k <= hi <= s@.len(),
            r@ == s@.subrange(lo as int, k as int),
        decreases hi - k,
    {
        r.push(s[k]);
        assert(r@ =~= s@.subrange(lo as int, k + 1));
        k = k + 1;
    }
    r
}

/// Whether two character vectors are equal.
pub fn chars_eq(a: &Vec<char>, b: &Vec<char>) -> (r: bool)
    ensures
        r == (a@ == b@),
{
    if a.len() != b.len() {
        return false;
    }
    let mut i: usize = 0;
    while i < a.len()
        invariant
            a@.len() == b@.len(),
            i <= a@.len(),
            a@.subrange(0, i as int) == b@.subrange(0, i as int),
        decreases a@.len() - i,
    {
        if a[i] != b[i] {
            assert(a@[i as int] != b@[i as int]);
            return false;
        }
        assert(a@.subrange(0, i + 1) =~= a@.subrange(0, i as int).push(a@[i as int]));
        assert(b@.subrange(0, i + 1) =~= b@.subrange(0, i as int).push(b@[i as int]));
        i = i + 1;
    }
    assert(a@ =~= a@.subrange(0, a@.len() as int));
    assert(b@ =~= b@.subrange(0, b@.len() as int));
    true
}

/// Appends the characters of `s` to `out`.
pub fn push_str_chars(out: &mut Vec<char>, s: &str)
    ensures
        final(out)@ == old(out)@ + s@,
{
    let n = s.unicode_len();
    let mut i: usize = 0;
    while i < n
        invariant
            n == s@.len(),
            i <= n,
            out@ == old(out)@ + s@.subrange(0, i as int),
        decreases n - i,
    {
        out.push(s.get_char(i));
        assert(s@.subrange(0, i + 1) =~= s@.subrange(0, i as int).push(s@[i as int]));
        i = i + 1;
    }
    assert(s@.subrange(0, n as int) =~= s@);
}

/// Appends the characters of `v` to `out`.
pub fn push_chars(out: &mut Vec<char>, v: &Vec<char>)
    ensures
        final(out)@ == old(out)@ + v@,
{
    let mut i: usize = 0;
    while i < v.len()
        invariant
            i <= v@.len(),
            out@ == old(out)@ + v@.subrange(0, i as int),
        decreases v@.len() - i,
    {
        out.push(v[i]);
        assert(v@.subrange(0, i + 1) =~= v@.subrange(0, i as int).push(v@[i as int]));
        i = i + 1;
    }
    assert(v@.subrange(0, v@.len() as int) =~= v@);
}

/// The file named by a directive line, as `directive_target` states.
pub fn directive_target_of(l: &Vec<char>) -> (r: Option<Vec<char>>)
    ensures
        match directive_target(l@) {
            Some(t) => r is Some && r->0@ == t,
            None => r is None,
        },
{
    let n = l.len();
    let a = skip_space_at(l, 0);
    if a >= n || l[a] != '#' {
        return None;
    }
    let b = skip_space_at(l, a + 1);
    if n < 7 || b > n - 7 {
        return None;
    }
    let word_ok = l[b] == 'i' && l[b + 1] == 'n' && l[b + 2] == 'c' && l[b + 3] == 'l' && l[b
        + 4] == 'u' && l[b + 5] == 'd' && l[b + 6] == 'e';
    if !word_ok {
        proof {
            if l@.subrange(b as int, b + 7) == directive_word() {
                assert(l@.subrange(b as int, b + 7)[0] == l@[b as int]);
                assert(l@.subrange(b as int, b + 7)[1] == l@[b + 1]);
                assert(l@.subrange(b as int, b + 7)[2] == l@[b + 2]);
                assert(l@.subrange(b as int, b + 7)[3] == l@[b + 3]);
                assert(l@.subrange(b as int, b + 7)[4] == l@[b + 4]);
                assert(l@.subrange(b as int, b + 7)[5] == l@[b + 5]);
                assert(l@.subrange(b as int, b + 7)[6] == l@[b + 6]);
            }
        }
        return None;
    }
    assert(l@.subrange(b as int, b + 7) =~= directive_word());
    let c = b + 7;
    let d = skip_space_at(l, c);
    if d == c || d >= n || l[d] != '"' {
        return None;
    }
    let e = quote_end_at(l, d + 1);
    if e == d + 1 || e >= n {
        return None;
    }
    Some(copy_range(l, d + 1, e))
}

/// Whether `t` is among the names in `visited`.
fn is_visited(visited: &Vec<Vec<char>>, t: &Vec<char>) -> (r: bool)
    ensures
        r == names_view(visited@).contains(t@),
{
    let mut i: usize = 0;
    while i < visited.len()
        invariant
            i <= visited@.len(),
            forall|k: int| 0 <= k < i ==> visited@[k]@ != t@,
        decreases visited@.len() - i,
    {
        if chars_eq(&visited[i], t) {
            assert(names_view(visited@)[i as int] == t@);
            return true;
        }
        i = i + 1;
    }
    assert forall|k: int| 0 <= k < names_view(visited@).len() implies names_view(visited@)[k]
        != t@ by {
        assert(visited@[k]@ != t@);
    }
    false
}

/// The position of the file that a directive naming `t` resolves to.
fn resolve_index(tree: &SourceTree, t: &Vec<char>) -> (r: Option<usize>)
    ensures
        match resolve(tree@, t@) {
            Some(text) => r is Some && r->0 < tree.files@.len() && tree.files@[r->0 as int].text@
                == text,
            None => r is None,
        },
{
    let mut i: usize = 0;
    while i < tree.files.len()
        invariant
            i <= tree.files@.len(),
            resolve_from(tree@, t@, i as int) == resolve(tree@, t@),
        decreases tree.files@.len() - i,
    {
        if chars_eq(&tree.files[i].name, t) {
            return Some(i);
        }
        i = i + 1;
    }
    None
}

/// The position of the file `name` of directory `dir`.
fn file_index(tree: &SourceTree, dir: usize, name: &Vec<char>) -> (r: Option<usize>)
    ensures
        match file_in(tree@, dir as nat, name@) {
            Some(text) => r is Some && r->0 < tree.files@.len() && tree.files@[r->0 as int].text@
                == text,
            None => r is None,
        },
{
    let mut i: usize = 0;
    while i < tree.files.len()
        invariant
            i <= tree.files@.len(),
            file_in_from(tree@, dir as nat, name@, i as int) == file_in(tree@, dir as nat, name@),
        decreases tree.files@.len() - i,
    {
        if tree.files[i].dir == dir && chars_eq(&tree.files[i].name, name) {
            return Some(i);
        }
        i = i + 1;
    }
    None
}

fn expand_file(
    tree: &SourceTree,
    name: &Vec<char>,
    text: &Vec<char>,
    out: &mut Vec<char>,
    visited: Vec<Vec<char>>,
    Ghost(budget): Ghost<nat>,
) -> (r: Vec<Vec<char>>)
    requires
        budget == unvisited(tree@, names_view(visited@)),
    ensures
        final(out)@ == old(out)@ + emit(tree@, name@, text@, names_view(visited@)).0,
        names_view(r@) == emit(tree@, name@, text@, names_view(visited@)).1,
    decreases budget,
{
    let mut visited = visited;
    let ghost v0 = names_view(visited@);
    let ghost out0 = out@;
    let ghost total = expand(tree@, lines(text@), v0);
    push_str_chars(out, "/* begin file ");
    push_chars(out, name);
    push_str_chars(out, " */\n");
    let n = text.len();
    let mut pos: usize = 0;
    proof {
        assert(extends(v0, v0)) by {
            assert(v0.subrange(0, v0.len() as int) =~= v0);
        }
    }
    while pos < n
        invariant
            n == text@.len(),
            pos <= n,
            out0 + begin_marker(name@) + total.0 == out@ + expand(
                tree@,
                lines_from(text@, pos as int),
                names_view(visited@),
            ).0,
            total.1 == expand(tree@, lines_from(text@, pos as int), names_view(visited@)).1,
            extends(names_view(visited@), v0),
            budget == unvisited(tree@, v0),
        decreases n - pos,
    {
        let mut e: usize = pos;
        while e < n && text[e] != '\n'
            invariant
                pos <= e <= n,
                n == text@.len(),
                line_end(text@, pos as int) == line_end(text@, e as int),
            decreases n - e,
        {
            e = e + 1;
        }
        let stop: usize = if e < n && e > pos && text[e - 1] == '\r' {
            e - 1
        } else {
            e
        };
        let line = copy_range(text, pos, stop);
        let next: usize = if e < n {
            e + 1
        } else {
            n
        };
        let ghost vcur = names_view(visited@);
        let ghost ls = lines_from(text@, pos as int);
        proof {
            if e < n {
                assert(strip_cr(text@.subrange(pos as int, e as int)) =~= line@);
            } else {
                assert(text@.subrange(pos as int, n as int) =~= line@);
            }
            assert(ls.len() > 0 && ls[0] == line@);
            assert(ls.drop_first() =~= lines_from(text@, next as int));
        }
        match directive_target_of(&line) {
            Some(t) => {
                if is_visited(&visited, &t) {
                    assert(expand(tree@, ls, vcur) == expand(tree@, ls.drop_first(), vcur));
                } else {
                    match resolve_index(tree, &t) {
                        Some(idx) => {
                            let ghost ttext = tree.files@[idx as int].text@;
                            proof {
                                lemma_resolve_in_tree(tree@, t@, 0);
                                lemma_visit_decreases(tree@, vcur, t@);
                                lemma_extends_unvisited(tree@, vcur, v0);
                            }
                            let tc = copy_range(&t, 0, t.len());
                            assert(t@.subrange(0, t@.len() as int) =~= t@);
                            visited.push(tc);
                            let ghost v1 = vcur.push(t@);
                            assert(names_view(visited@) =~= v1);
                            assert(unvisited(tree@, names_view(visited@)) < unvisited(tree@, v0));
                            visited = expand_file(
                                tree,
                                &t,
                                &tree.files[idx].text,
                                out,
                                visited,
                                Ghost(unvisited(tree@, v1)),
                            );
                            proof {
                                let inner = expand(tree@, lines(ttext), v1);
                                lemma_expand_extends(tree@, lines(ttext), v1);
                                assert(extends(v1, vcur)) by {
                                    assert(v1.subrange(0, vcur.len() as int) =~= vcur);
                                }
                                lemma_extends_trans(inner.1, v1, vcur);
                                lemma_extends_unvisited(tree@, inner.1, vcur);
                                lemma_extends_trans(inner.1, vcur, v0);
                                assert(expand(tree@, ls, vcur).0 == begin_marker(t@) + inner.0
                                    + end_marker(t@) + expand(tree@, ls.drop_first(), inner.1).0);
                                assert(expand(tree@, ls, vcur).1 == expand(
                                    tree@,
                                    ls.drop_first(),
                                    inner.1,
                                ).1);
                            }
                        },
                        None => {
                            push_chars(out, &line);
                            out.push('\n');
                        },
                    }
                }
            },
            None => {
                push_chars(out, &line);
                out.push('\n');
            },
        }
        pos = next;
    }
    push_str_chars(out, "/* end file ");
    push_chars(out, name);
    push_str_chars(out, " */\n");
    visited
}

/// Appends to `out` the file `filename` of search directory `base`, its
/// directives expanded against the tree; `visited` is the list of names
/// already inlined in this run, shared across root files. The root's own
/// name is not added. Fails with `MissingFile`, changing nothing, when the
/// directory holds no such file.
pub fn amalgamate_file(
    tree: &SourceTree,
    base: usize,
    filename: &Vec<char>,
    out: &mut Vec<char>,
    visited: &mut Vec<Vec<char>>,
) -> (r: Result<(), BuildError>)
    ensures
        match file_in(tree@, base as nat, filename@) {
            None => r == Err::<(), BuildError>(BuildError::MissingFile) && final(out)@ == old(
                out,
            )@ && final(visited)@ == old(visited)@,
            Some(text) => r is Ok && final(out)@ == old(out)@ + emit(
                tree@,
                filename@,
                text,
                names_view(old(visited)@),
            ).0 && names_view(final(visited)@) == emit(
                tree@,
                filename@,
                text,
                names_view(old(visited)@),
            ).1,
        },
{
    match file_index(tree, base, filename) {
        None => Err(BuildError::MissingFile),
        Some(idx) => {
            let mut taken: Vec<Vec<char>> = Vec::new();
            core::mem::swap(visited, &mut taken);
            let grown = expand_file(
                tree,
                filename,
                &tree.files[idx].text,
                out,
                taken,
                Ghost(unvisited(tree@, names_view(taken@))),
            );
            *visited = grown;
            Ok(())
        },
    }
}

} // verus!
