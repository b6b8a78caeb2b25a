use vstd::prelude::*;

use crate::error::BuildError;
use crate::text::str_eq;

verus! {

/// A platform triple: architecture, vendor, and the optional system and ABI.
#[derive(Clone, Debug)]
pub struct Target {
    pub architecture: String,
    pub vendor: String,
    pub system: Option<String>,
    pub abi: Option<String>,
}

/// A triple as plain values.
pub type TargetModel = (Seq<char>, Seq<char>, Option<Seq<char>>, Option<Seq<char>>);

pub open spec fn opt_view(o: Option<String>) -> Option<Seq<char>> {
    match o {
        Some(s) => Some(s@),
        None => None,
    }
}

impl View for Target {
    type V = TargetModel;

    open spec fn view(&self) -> TargetModel {
        (self.architecture@, self.vendor@, opt_view(self.system), opt_view(self.abi))
    }
}

/// Position of the first dash at or after `i`, or the length.
pub open spec fn dash_pos(s: Seq<char>, i: int) -> int
    decreases s.len() - i,
{
    if i < 0 || i >= s.len() || s[i] == '-' {
        i
    } else {
        dash_pos(s, i + 1)
    }
}

pub proof fn lemma_dash_pos(s: Seq<char>, i: int)
    requires
        0 <= i <= s.len(),
    ensures
        i <= dash_pos(s, i) <= s.len(),
        dash_pos(s, i) < s.len() ==> s[dash_pos(s, i)] == '-',
        forall|k: int| i <= k < dash_pos(s, i) ==> s[k] != '-',
    decreases s.len() - i,
{
    if i < s.len() && s[i] != '-' {
        lemma_dash_pos(s, i + 1);
    }
}

/// The dash-separated pieces of `s` from position `i` on, empty ones kept.
pub open spec fn split_from(s: Seq<char>, i: int) -> Seq<Seq<char>>
    decreases s.len() - i,
{
    if i < 0 || i > s.len() {
        Seq::empty()
    } else {
        let e = dash_pos(s, i);
        proof {
            lemma_dash_pos(s, i);
        }
        if e >= s.len() {
            seq![s.subrange(i, s.len() as int)]
        } else {
            seq![s.subrange(i, e)] + split_from(s, e + 1)
        }
    }
}

/// The dash-separated components of a triple string.
pub open spec fn components(s: Seq<char>) -> Seq<Seq<char>> {
    split_from(s, 0)
}

/// Pieces joined with single dashes.
pub open spec fn join_dashed(ps: Seq<Seq<char>>) -> Seq<char>
    decreases ps.len(),
{
    if ps.len() == 0 {
        Seq::empty()
    } else if ps.len() == 1 {
        ps[0]
    } else {
        ps[0] + seq!['-'] + join_dashed(ps.drop_first())
    }
}

/// The triple that a string describes: the first two components, then the
/// third and fourth where present; none with fewer than two.
pub open spec fn parse_triple(s: Seq<char>) -> Option<TargetModel> {
    let c = components(s);
    if c.len() < 2 {
        None
    } else {
        Some(
            (
                c[0],
                c[1],
                if c.len() > 2 {
                    Some(c[2])
                } else {
                    None
                },
                if c.len() > 3 {
                    Some(c[3])
                } else {
                    None
                },
            ),
        )
    }
}

/// The canonical string of a triple: its present components joined by dashes.
pub open spec fn format_triple(t: TargetModel) -> Seq<char> {
    let head = t.0 + seq!['-'] + t.1;
    let with_system = match t.2 {
        Some(s) => head + seq!['-'] + s,
        None => head,
    };
    match t.3 {
        Some(a) => with_system + seq!['-'] + a,
        None => with_system,
    }
}

/// The architecture name that the mobile toolchain uses.
pub open spec fn arch_alias(arch: Seq<char>) -> Seq<char> {
    if arch == "armv7"@ {
        "arm"@
    } else if arch == "aarch64"@ {
        "arm64"@
    } else if arch == "i686"@ {
        "x86"@
    } else {
        arch
    }
}

pub proof fn lemma_join_split(s: Seq<char>, i: int)
    requires
        0 <= i <= s.len(),
    ensures
        join_dashed(split_from(s, i)) == s.subrange(i, s.len() as int),
        split_from(s, i).len() >= 1,
    decreases s.len() - i,
{
    lemma_dash_pos(s, i);
    let e = dash_pos(s, i);
    if e < s.len() {
        lemma_join_split(s, e + 1);
        let rest = split_from(s, e + 1);
        let ps = split_from(s, i);
        assert(ps.drop_first() =~= rest);
        assert(s.subrange(i, s.len() as int) =~= s.subrange(i, e) + seq!['-'] + s.subrange(
            e + 1,
            s.len() as int,
        ));
    }
}

/// Formatting a parsed triple gives back the string, for every string of two
/// to four dash-separated components.
pub proof fn lemma_triple_round_trip(s: Seq<char>)
    requires
        2 <= components(s).len() <= 4,
    ensures
        parse_triple(s) is Some,
        format_triple(parse_triple(s)->0) == s,
{
    let c = components(s);
    lemma_join_split(s, 0);
    assert(s.subrange(0, s.len() as int) =~= s);
    let c1 = c.drop_first();
    let c2 = c1.drop_first();
    if c.len() == 2 {
        assert(join_dashed(c1) == c[1]);
    } else if c.len() == 3 {
        assert(join_dashed(c2) == c[2]);
        assert(join_dashed(c1) == c[1] + seq!['-'] + c[2]);
        assert(join_dashed(c) =~= c[0] + seq!['-'] + c[1] + seq!['-'] + c[2]);
    } else {
        let c3 = c2.drop_first();
        assert(join_dashed(c3) == c[3]);
        assert(join_dashed(c2) == c[2] + seq!['-'] + c[3]);
        assert(join_dashed(c1) == c[1] + seq!['-'] + (c[2] + seq!['-'] + c[3]));
        assert(join_dashed(c) =~= c[0] + seq!['-'] + c[1] + seq!['-'] + c[2] + seq!['-'] + c[3]);
    }
}

/// Position of the first dash at or after `i` in `s`, or its length.
fn dash_at(s: &str, n: usize, i: usize) -> (r: usize)
    requires
        n == s@.len(),
        i <= n,
    ensures
        r == dash_pos(s@, i as int),
{
    let mut j: usize = i;
    while j < n && s.get_char(j) != '-'
        invariant
            i <= j <= n,
            n == s@.len(),
            dash_pos(s@, j as int) == dash_pos(s@, i as int),
        decreases n - j,
    {
        j = j + 1;
    }
    j
}

impl Target {
    /// Parses a dash-separated triple; fails with `MalformedTriple` when it
    /// has fewer than two components. Components past the fourth are dropped.
    pub fn parse(s: &str) -> (r: Result<Target, BuildError>)
        ensures
            match parse_triple(s@) {
                Some(t) => r is Ok && r->Ok_0@ == t,
                None => r == Err::<Target, BuildError>(BuildError::MalformedTriple),
            },
    {
        let n = s.unicode_len();
        let mut parts: Vec<String> = Vec::new();
        let mut i: usize = 0;
        let mut done = false;
        while !done
            invariant
                n == s@.len(),
                i <= n,
                !done ==> parts@.map_values(|p: String| p@) + split_from(s@, i as int) == components(
                    s@,
                ),
                done ==> parts@.map_values(|p: String| p@) == components(s@),
            decreases n - i + (if done {
                0int
            } else {
                1int
            }),
        {
            proof {
                lemma_dash_pos(s@, i as int);
            }
            let e = dash_at(s, n, i);
            let piece = String::from_str(s.substring_char(i, e));
            let ghost before = parts@.map_values(|p: String| p@);
            parts.push(piece);
            assert(parts@.map_values(|p: String| p@) =~= before.push(s@.subrange(i as int, e as int)));
            if e < n {
                assert(split_from(s@, i as int) =~= seq![s@.subrange(i as int, e as int)] + split_from(s@, e + 1));
                assert(before.push(s@.subrange(i as int, e as int)) + split_from(s@, e + 1) =~= before + split_from(s@, i as int));
                i = e + 1;
            } else {
                assert(split_from(s@, i as int) =~= seq![s@.subrange(i as int, n as int)]);
                assert(before.push(s@.subrange(i as int, e as int)) =~= before + split_from(s@, i as int));
                done = true;
            }
        }
        let ghost c = components(s@);
        assert(parts@.len() == c.len());
        if parts.len() < 2 {
            return Err(BuildError::MalformedTriple);
        }
        assert(parts@[0]@ == c[0]);
        assert(parts@[1]@ == c[1]);
        let abi = if parts.len() > 3 {
            assert(parts@[3]@ == c[3]);
            Some(parts[3].clone())
        } else {
            None
        };
        let system = if parts.len() > 2 {
            assert(parts@[2]@ == c[2]);
            Some(parts[2].clone())
        } else {
            None
        };
        Ok(Target { architecture: parts[0].clone(), vendor: parts[1].clone(), system, abi })
    }

    /// The canonical triple string.
    pub fn to_string(&self) -> (r: String)
        ensures
            r@ == format_triple(self@),
    {
        proof {
            reveal_strlit("-");
        }
        let mut r = self.architecture.clone();
        r.append("-");
        r.append(self.vendor.as_str());
        match &self.system {
            Some(system) => {
                r.append("-");
                r.append(system.as_str());
            },
            None => {},
        }
        match &self.abi {
            Some(abi) => {
                r.append("-");
                r.append(abi.as_str());
            },
            None => {},
        }
        r
    }

    /// The four components as borrowed strings.
    pub fn as_strs(&self) -> (r: (&str, &str, Option<&str>, Option<&str>))
        ensures
            r.0@ == self.architecture@,
            r.1@ == self.vendor@,
            match self.system {
                Some(s) => r.2 is Some && r.2->0@ == s@,
                None => r.2 is None,
            },
            match self.abi {
                Some(a) => r.3 is Some && r.3->0@ == a@,
                None => r.3 is None,
            },
    {
        let system = match &self.system {
            Some(s) => Some(s.as_str()),
            None => None,
        };
        let abi = match &self.abi {
            Some(a) => Some(a.as_str()),
            None => None,
        };
        (self.architecture.as_str(), self.vendor.as_str(), system, abi)
    }
}

/// Maps an architecture name to the one the mobile toolchain uses:
/// `armv7` to `arm`, `aarch64` to `arm64`, `i686` to `x86`; any other name
/// is returned as it is.
pub fn target_arch(arch: &str) -> (r: &str)
    ensures
        r@ == arch_alias(arch@),
{
    if str_eq(arch, "armv7") {
        "arm"
    } else if str_eq(arch, "aarch64") {
        "arm64"
    } else if str_eq(arch, "i686") {
        "x86"
    } else {
        arch
    }
}

} // verus!
