use crate::views_of;
use vstd::prelude::*;

verus! {

/// An entry name decoded and confirmed to resolve at or below the extraction
/// root: the normalized path components, in order from the root.
pub struct ValidatedPath {
    pub components: Vec<String>,
}

/// The verdict of the path guard on a raw stored name.
pub enum PathCheck {
    /// The name resolves to a strict descendant of the extraction root.
    Safe(ValidatedPath),
    /// The name resolves to the extraction root itself; such entries are
    /// silently ignored.
    RootDepthZero,
    /// The name resolves above the extraction root (the classic archive
    /// path-traversal attack), or is absolute.
    Escape,
}

pub open spec fn is_dot(c: Seq<char>) -> bool {
    c.len() == 1 && c[0] == '.'
}

pub open spec fn is_dotdot(c: Seq<char>) -> bool {
    c.len() == 2 && c[0] == '.' && c[1] == '.'
}

/// A component that survives normalization: nonempty and not a `.`/`..`
/// marker.
pub open spec fn is_normal_component(c: Seq<char>) -> bool {
    c.len() > 0 && !is_dot(c) && !is_dotdot(c)
}

/// The name split at every separator, empty pieces kept; always nonempty.
/// Both `/` and `\` separate components, as the container format's names are
/// resolved Windows-style on every platform.
pub open spec fn split_path(s: Seq<char>) -> Seq<Seq<char>>
    decreases s.len(),
{
    if s.len() == 0 {
        seq![Seq::empty()]
    } else {
        let p = split_path(s.drop_last());
        if s.last() == '/' || s.last() == '\\' {
            p.push(Seq::empty())
        } else {
            p.update(p.len() - 1, p.last().push(s.last()))
        }
    }
}

/// Left-to-right normalization of the split components: empty pieces and `.`
/// vanish, `..` pops the last kept component, and a `..` with nothing left to
/// pop means the name resolves above the root (`None`).
pub open spec fn norm_fold(comps: Seq<Seq<char>>) -> Option<Seq<Seq<char>>>
    decreases comps.len(),
{
    if comps.len() == 0 {
        Some(Seq::empty())
    } else {
        match norm_fold(comps.drop_last()) {
            None => None,
            Some(st) => {
                let c = comps.last();
                if c.len() == 0 || is_dot(c) {
                    Some(st)
                } else if is_dotdot(c) {
                    if st.len() == 0 {
                        None
                    } else {
                        Some(st.drop_last())
                    }
                } else {
                    Some(st.push(c))
                }
            },
        }
    }
}

/// Where a raw stored name resolves: `None` when it escapes the extraction
/// root (absolute, or normalizing above the root), otherwise the normalized
/// components (empty = the root itself).
pub open spec fn path_model(s: Seq<char>) -> Option<Seq<Seq<char>>> {
    if s.len() > 0 && (s[0] == '/' || s[0] == '\\') {
        None
    } else {
        norm_fold(split_path(s))
    }
}

/// The components joined with `/` separators.
pub open spec fn joined(comps: Seq<Seq<char>>) -> Seq<char>
    decreases comps.len(),
{
    if comps.len() == 0 {
        Seq::empty()
    } else if comps.len() == 1 {
        comps[0]
    } else {
        joined(comps.drop_last()) + seq!['/'] + comps.last()
    }
}

proof fn lemma_split_nonempty(s: Seq<char>)
    ensures
        split_path(s).len() >= 1,
    decreases s.len(),
{
    if s.len() > 0 {
        lemma_split_nonempty(s.drop_last());
    }
}

proof fn lemma_norm_fold_none(s: Seq<Seq<char>>, i: int)
    requires
        0 <= i <= s.len(),
        norm_fold(s.take(i)) is None,
    ensures
        norm_fold(s) is None,
    decreases s.len() - i,
{
    if i < s.len() {
        assert(s.take(i + 1).drop_last() =~= s.take(i));
        lemma_norm_fold_none(s, i + 1);
    } else {
        assert(s.take(i) =~= s);
    }
}

impl ValidatedPath {
    /// The component count.
    pub fn depth(&self) -> (d: usize)
        ensures
            d == self.components@.len(),
    {
        self.components.len()
    }

    /// The last component.
    pub fn leaf(&self) -> (l: &String)
        requires
            self.components@.len() > 0,
        ensures
            l@ == views_of(self.components@).last(),
    {
        &self.components[self.components.len() - 1]
    }
}

/// Decide where a raw stored entry name resolves, relative to the extraction
/// root.  A name is rejected exactly when it is absolute or when, after
/// normalizing `.` and `..` pieces, it would climb above the root; a name
/// that normalizes to nothing is the root itself and is reported separately.
pub fn validate(raw: &str) -> (r: PathCheck)
    ensures
        (r is Escape) == (path_model(raw@) is None),
        (r is RootDepthZero) == (path_model(raw@) matches Some(c) && c.len() == 0),
        r matches PathCheck::Safe(v) ==> {
            &&& path_model(raw@) == Some(views_of(v.components@))
            &&& v.components@.len() > 0
            &&& forall|k: int|
                0 <= k < v.components@.len() ==> is_normal_component(
                    #[trigger] views_of(v.components@)[k],
                )
        },
{
    let n = raw.unicode_len();
    if n > 0 {
        let first = raw.get_char(0);
        if first == '/' || first == '\\' {
            return PathCheck::Escape;
        }
    }
    let mut comps: Vec<String> = Vec::new();
    let mut start: usize = 0;
    let mut i: usize = 0;
    while i < n
        invariant
            i <= n,
            start <= i,
            n == raw@.len(),
            views_of(comps@) == split_path(raw@.take(i as int)).drop_last(),
            split_path(raw@.take(i as int)).last() == raw@.subrange(start as int, i as int),
        decreases n - i,
    {
        proof {
            assert(raw@.take(i as int + 1).drop_last() =~= raw@.take(i as int));
            assert(raw@.take(i as int + 1).last() == raw@[i as int]);
            lemma_split_nonempty(raw@.take(i as int));
        }
        let c = raw.get_char(i);
        if c == '/' || c == '\\' {
            let piece = raw.substring_char(start, i).to_owned();
            comps.push(piece);
            proof {
                let p = split_path(raw@.take(i as int));
                assert(views_of(comps@) =~= p.drop_last().push(p.last()));
                assert(p.drop_last().push(p.last()) =~= p);
                assert(split_path(raw@.take(i as int + 1)) == p.push(Seq::<char>::empty()));
                assert(split_path(raw@.take(i as int + 1)).drop_last() =~= p);
                assert(raw@.subrange(i as int + 1, i as int + 1) =~= Seq::<char>::empty());
            }
            start = i + 1;
        } else {
            proof {
                let p = split_path(raw@.take(i as int));
                let q = split_path(raw@.take(i as int + 1));
                assert(q == p.update(p.len() - 1, p.last().push(raw@[i as int])));
                assert(q.drop_last() =~= p.drop_last());
                assert(q.last() == p.last().push(raw@[i as int]));
                assert(raw@.subrange(start as int, i as int + 1) =~= raw@.subrange(
                    start as int,
                    i as int,
                ).push(raw@[i as int]));
            }
        }
        i += 1;
    }
    proof {
        assert(raw@.take(n as int) =~= raw@);
    }
    let piece = raw.substring_char(start, n).to_owned();
    comps.push(piece);
    proof {
        let p = split_path(raw@);
        lemma_split_nonempty(raw@);
        assert(views_of(comps@) =~= p.drop_last().push(p.last()));
        assert(p.drop_last().push(p.last()) =~= p);
    }
    let ghost cv = views_of(comps@);
    let m = comps.len();
    let mut stack: Vec<String> = Vec::new();
    let mut j: usize = 0;
    while j < m
        invariant
            j <= m,
            m == comps@.len(),
            cv == views_of(comps@),
            cv == split_path(raw@),
            !(raw@.len() > 0 && (raw@[0] == '/' || raw@[0] == '\\')),
            norm_fold(cv.take(j as int)) == Some(views_of(stack@)),
            forall|k: int|
                0 <= k < stack@.len() ==> is_normal_component(#[trigger] views_of(stack@)[k]),
        decreases m - j,
    {
        proof {
            assert(cv.take(j as int + 1).drop_last() =~= cv.take(j as int));
            assert(cv.take(j as int + 1).last() == cv[j as int]);
            assert(cv[j as int] == comps@[j as int]@);
        }
        let ghost st = views_of(stack@);
        let clen = comps[j].as_str().unicode_len();
        if clen == 0 {
        } else if clen == 1 && comps[j].as_str().get_char(0) == '.' {
            proof {
                assert(is_dot(cv[j as int]));
            }
        } else if clen == 2 && comps[j].as_str().get_char(0) == '.' && comps[j].as_str().get_char(
            1,
        ) == '.' {
            proof {
                assert(is_dotdot(cv[j as int]));
            }
            if stack.len() == 0 {
                proof {
                    assert(st.len() == 0);
                    assert(norm_fold(cv.take(j as int + 1)) is None);
                    lemma_norm_fold_none(cv, j as int + 1);
                }
                return PathCheck::Escape;
            }
            let _dropped = stack.pop();
            proof {
                assert(views_of(stack@) =~= st.drop_last());
            }
        } else {
            proof {
                assert(cv[j as int].len() > 0);
                assert(!is_dot(cv[j as int]));
                assert(!is_dotdot(cv[j as int]));
            }
            let e = comps[j].clone();
            stack.push(e);
            proof {
                assert(views_of(stack@) =~= st.push(cv[j as int]));
            }
        }
        j += 1;
    }
    proof {
        assert(cv.take(m as int) =~= cv);
    }
    if stack.len() == 0 {
        proof {
            assert(views_of(stack@) =~= Seq::<Seq<char>>::empty());
        }
        PathCheck::RootDepthZero
    } else {
        PathCheck::Safe(ValidatedPath { components: stack })
    }
}

/// The components joined back into a displayable path with `/` separators.
pub fn join_components(comps: &Vec<String>) -> (s: String)
    ensures
        s@ == joined(views_of(comps@)),
{
    let mut s = String::new();
    let n = comps.len();
    let mut i: usize = 0;
    while i < n
        invariant
            i <= n,
            n == comps@.len(),
            s@ == joined(views_of(comps@).take(i as int)),
        decreases n - i,
    {
        let ghost cv = views_of(comps@);
        proof {
            assert(cv.take(i as int + 1).drop_last() =~= cv.take(i as int));
            assert(cv.take(i as int + 1).last() == cv[i as int]);
            assert(cv[i as int] == comps@[i as int]@);
        }
        if i > 0 {
            s.append("/");
            proof {
                reveal_strlit("/");
                assert("/"@ =~= seq!['/']);
            }
        }
        s.append(comps[i].as_str());
        proof {
            if i == 0 {
                assert(joined(cv.take(0)) == Seq::<char>::empty());
                assert(s@ =~= cv[0]);
                assert(joined(cv.take(1)) == cv.take(1)[0]);
                assert(cv.take(1)[0] == cv[0]);
            } else {
                assert(joined(cv.take(i as int + 1)) == joined(cv.take(i as int)) + seq!['/']
                    + cv[i as int]);
            }
        }
        i += 1;
    }
    proof {
        assert(views_of(comps@).take(n as int) =~= views_of(comps@));
    }
    s
}

} // verus!
