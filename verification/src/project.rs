//! The fuzzing project's directory layout.
//!
//! A project keeps its fuzzing assets under one directory — by default
//! `fuzz` beside the package — holding the manifest, the target scripts and
//! the generated corpora.  The functions here compute those paths as plain
//! strings; reading the manifest and walking the filesystem happen outside
//! the library, which is handed the directory and the collected target
//! names.
//!
//! Paths are joined with a single `/` separator; the join specification is
//! `path_concat` below.

use vstd::prelude::*;

verus! {

/// The join of a directory and one further component.
pub open spec fn path_concat(a: Seq<char>, b: Seq<char>) -> Seq<char> {
    a + seq!['/'] + b
}

/// The largest index holding `c`, or `-1` when `c` does not occur.
pub open spec fn last_index_of(s: Seq<char>, c: char) -> int
    decreases s.len(),
{
    if s.len() == 0 {
        -1
    } else if s[s.len() - 1] == c {
        s.len() - 1
    } else {
        last_index_of(s.subrange(0, s.len() - 1), c)
    }
}

/// Where a target name's extension starts: at its last dot, provided the
/// dot stands strictly inside the name's final path component (a name whose
/// component starts with the dot has no extension).  A name without an
/// extension keeps its full length.
pub open spec fn stem_end(name: Seq<char>) -> int {
    let sep = last_index_of(name, '/');
    let dot = last_index_of(name, '.');
    if dot > sep + 1 {
        dot
    } else {
        name.len() as int
    }
}

/// Whether a directory path's final component is the default fuzz
/// directory name `fuzz`.
pub open spec fn is_default_fuzz_dir(s: Seq<char>) -> bool {
    s == "fuzz"@ || (s.len() > 4 && s.subrange(s.len() - 5, s.len() as int) == "/fuzz"@)
}

/// If `c` stands at `i` and nowhere later, `i` is its last index.
proof fn lemma_last_index_found(s: Seq<char>, c: char, i: int)
    requires
        0 <= i < s.len(),
        s[i] == c,
        forall|j: int| i < j < s.len() ==> s[j] != c,
    ensures
        last_index_of(s, c) == i,
    decreases s.len(),
{
    if i < s.len() - 1 {
        let head = s.subrange(0, s.len() - 1);
        assert(head[i] == s[i]);
        assert forall|j: int| i < j < head.len() implies head[j] != c by {
            assert(head[j] == s[j]);
        }
        lemma_last_index_found(head, c, i);
    }
}

/// If `c` occurs nowhere, there is no last index.
proof fn lemma_last_index_none(s: Seq<char>, c: char)
    requires
        forall|j: int| 0 <= j < s.len() ==> s[j] != c,
    ensures
        last_index_of(s, c) == -1,
    decreases s.len(),
{
    if s.len() > 0 {
        let head = s.subrange(0, s.len() - 1);
        assert forall|j: int| 0 <= j < head.len() implies head[j] != c by {
            assert(head[j] == s[j]);
        }
        lemma_last_index_none(head, c);
    }
}

/// Join a directory and one component with a `/` separator.
pub fn join_path(base: &str, part: &str) -> (r: String)
    ensures
        r@ == path_concat(base@, part@),
{
    let mut s = String::from_str(base);
    s.append("/");
    s.append(part);
    proof {
        reveal_strlit("/");
        assert("/"@ =~= seq!['/']);
        assert(s@ =~= path_concat(base@, part@));
    }
    s
}

/// The index of the last occurrence of `c` in `s`, if any.
pub fn last_char_position(s: &str, c: char) -> (r: Option<usize>)
    ensures
        (r matches Some(i) ==> i == last_index_of(s@, c) && i < s@.len()),
        (r is None ==> last_index_of(s@, c) == -1),
{
    let n = s.unicode_len();
    let mut i: usize = n;
    while i > 0
        invariant
            i <= n,
            n == s@.len(),
            forall|j: int| i <= j < s@.len() ==> s@[j] != c,
        decreases i,
    {
        i = i - 1;
        if s.get_char(i) == c {
            proof {
                lemma_last_index_found(s@, c, i as int);
            }
            return Some(i);
        }
    }
    proof {
        lemma_last_index_none(s@, c);
    }
    None
}

/// A fuzzing project: where its fuzz directory lies, and which targets its
/// manifest declares.
#[derive(Debug)]
pub struct FuzzProject {
    /// The project's fuzz directory.
    pub fuzz_dir: String,
    /// The declared target names.
    pub targets: Vec<String>,
}

/// A project over the given fuzz directory — the one handed in, or the
/// default `fuzz` directory under the package — with no targets collected
/// yet.
pub fn manage_initial_instance(project_dir: &str, fuzz_dir_opt: Option<String>) -> (p: FuzzProject)
    ensures
        p.targets@.len() == 0,
        (fuzz_dir_opt matches Some(d) ==> p.fuzz_dir@ == d@),
        (fuzz_dir_opt is None ==> p.fuzz_dir@ == path_concat(project_dir@, "fuzz"@)),
{
    let fuzz_dir = match fuzz_dir_opt {
        Some(d) => d,
        None => join_path(project_dir, "fuzz"),
    };
    FuzzProject { fuzz_dir, targets: Vec::new() }
}

impl FuzzProject {
    /// A project over the given fuzz directory, holding the target names
    /// collected from its manifest.
    pub fn new(project_dir: &str, fuzz_dir_opt: Option<String>, targets: Vec<String>) -> (p: Self)
        ensures
            p.targets@ == targets@,
            (fuzz_dir_opt matches Some(d) ==> p.fuzz_dir@ == d@),
            (fuzz_dir_opt is None ==> p.fuzz_dir@ == path_concat(project_dir@, "fuzz"@)),
    {
        let mut p = manage_initial_instance(project_dir, fuzz_dir_opt);
        p.targets = targets;
        p
    }

    /// The project's fuzz directory.
    pub fn get_fuzz_dir(&self) -> (r: &String)
        ensures
            r@ == self.fuzz_dir@,
    {
        &self.fuzz_dir
    }

    /// Whether the fuzz directory is the default one: its final component
    /// is `fuzz`.
    pub fn fuzz_dir_is_default_path(&self) -> (r: bool)
        ensures
            r == is_default_fuzz_dir(self.fuzz_dir@),
    {
        let s = self.fuzz_dir.as_str();
        let n = s.unicode_len();
        proof {
            reveal_strlit("fuzz");
            reveal_strlit("/fuzz");
        }
        if n == 4 {
            let hit = s.get_char(0) == 'f' && s.get_char(1) == 'u' && s.get_char(2) == 'z'
                && s.get_char(3) == 'z';
            proof {
                if hit {
                    assert(s@ =~= "fuzz"@);
                } else {
                    assert(s@ != "fuzz"@);
                }
            }
            hit
        } else if n >= 5 {
            let hit = s.get_char(n - 5) == '/' && s.get_char(n - 4) == 'f' && s.get_char(n - 3)
                == 'u' && s.get_char(n - 2) == 'z' && s.get_char(n - 1) == 'z';
            proof {
                let tail = s@.subrange(n - 5, n as int);
                assert(tail[0] == s@[n - 5] && tail[1] == s@[n - 4] && tail[2] == s@[n - 3]
                    && tail[3] == s@[n - 2] && tail[4] == s@[n - 1]);
                if hit {
                    assert(tail =~= "/fuzz"@);
                } else {
                    assert(tail != "/fuzz"@);
                }
                assert(s@.len() != "fuzz"@.len());
            }
            hit
        } else {
            proof {
                assert(s@.len() < 4 && "fuzz"@.len() == 4);
            }
            false
        }
    }

    /// The path of the project's manifest, `Move.toml` in the fuzz
    /// directory.
    pub fn get_manifest_path(&self) -> (r: String)
        ensures
            r@ == path_concat(self.fuzz_dir@, "Move.toml"@),
    {
        join_path(self.fuzz_dir.as_str(), "Move.toml")
    }

    /// The directory holding the target scripts.
    pub fn get_targets_dir(&self) -> (r: String)
        ensures
            r@ == path_concat(self.fuzz_dir@, "fuzz_targets"@),
    {
        join_path(self.fuzz_dir.as_str(), "fuzz_targets")
    }

    /// The path of one target's script: the target's name under the targets
    /// directory, its extension replaced by `move`.
    pub fn get_target_path(&self, target: &str) -> (r: String)
        ensures
            r@ == path_concat(
                path_concat(self.fuzz_dir@, "fuzz_targets"@),
                target@.subrange(0, stem_end(target@)) + ".move"@,
            ),
    {
        let dir = self.get_targets_dir();
        let cut = stem_cut(target);
        let prefix = target.substring_char(0, cut);
        let mut name = String::from_str(prefix);
        name.append(".move");
        let r = join_path(dir.as_str(), name.as_str());
        proof {
            assert(r@ =~= path_concat(
                path_concat(self.fuzz_dir@, "fuzz_targets"@),
                target@.subrange(0, stem_end(target@)) + ".move"@,
            ));
        }
        r
    }

    /// The caller-chosen build-output directory, if one was given.
    pub fn get_target_dir(&self, path: &Option<String>) -> (r: Option<String>)
        ensures
            (path matches Some(d) ==> r matches Some(x) && x@ == d@),
            (path is None ==> r is None),
    {
        match path {
            Some(target_dir) => Some(target_dir.clone()),
            None => None,
        }
    }
}

/// Whether a file name denotes a compiled module: its extension is `mv`.
/// The module loader keeps exactly the sibling files this accepts.
pub open spec fn is_compiled_module_name(s: Seq<char>) -> bool {
    stem_end(s) < s.len() && s.subrange(stem_end(s), s.len() as int) == ".mv"@
}

/// Whether a file name carries the compiled-module extension `mv`.
pub fn has_compiled_extension(name: &str) -> (r: bool)
    ensures
        r == is_compiled_module_name(name@),
{
    let n = name.unicode_len();
    let cut = stem_cut(name);
    proof {
        reveal_strlit(".mv");
    }
    if cut == n {
        return false;
    }
    let hit = n - cut == 3 && name.get_char(cut) == '.' && name.get_char(cut + 1) == 'm'
        && name.get_char(cut + 2) == 'v';
    proof {
        let tail = name@.subrange(cut as int, n as int);
        if n - cut == 3 {
            assert(tail[0] == name@[cut as int] && tail[1] == name@[cut as int + 1] && tail[2]
                == name@[cut as int + 2]);
            if hit {
                assert(tail =~= ".mv"@);
            } else {
                assert(tail != ".mv"@);
            }
        } else {
            assert(tail.len() != ".mv"@.len());
        }
    }
    hit
}

/// Where a target name's extension starts, as an index into the name.
pub fn stem_cut(target: &str) -> (cut: usize)
    ensures
        cut == stem_end(target@),
        cut <= target@.len(),
{
    let n = target.unicode_len();
    let dot = last_char_position(target, '.');
    let sep = last_char_position(target, '/');
    match dot {
        Some(d) => {
            match sep {
                Some(p) => {
                    if d > p + 1 {
                        d
                    } else {
                        n
                    }
                },
                None => {
                    if d > 0 {
                        d
                    } else {
                        n
                    }
                },
            }
        },
        None => n,
    }
}

} // verus!
