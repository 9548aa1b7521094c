use crate::views_of;
use vstd::prelude::*;

verus! {

/// Hierarchical structure accumulating validated entry paths: a map from a
/// path component to the subtree below it, with intermediate nodes created
/// implicitly.  Children are kept in insertion order; a name decides which
/// child is meant, so sibling names are never duplicated by `insert`.
pub struct PrefixTree {
    pub root: Vec<ChildNode>,
}

/// One child of a tree node: a component name and the subtree below it.
pub struct ChildNode {
    pub name: String,
    pub tree: PrefixTree,
}

/// The first child bound to `name`, if any.
pub open spec fn lookup(children: Seq<ChildNode>, name: Seq<char>) -> Option<PrefixTree>
    decreases children.len(),
{
    if children.len() == 0 {
        None
    } else if children[0].name@ == name {
        Some(children[0].tree)
    } else {
        lookup(children.drop_first(), name)
    }
}

/// Whether `p` is a prefix of `s`.
pub open spec fn is_prefix_of(p: Seq<Seq<char>>, s: Seq<Seq<char>>) -> bool {
    p.len() <= s.len() && p == s.take(p.len() as int)
}

proof fn lemma_lookup_first_match(r: Seq<ChildNode>, j: int)
    requires
        0 <= j < r.len(),
        forall|k: int| 0 <= k < j ==> r[k].name@ != r[j].name@,
    ensures
        lookup(r, r[j].name@) == Some(r[j].tree),
    decreases j,
{
    if j > 0 {
        let t = r.drop_first();
        assert(forall|k: int| 0 <= k < t.len() ==> t[k] == r[k + 1]);
        lemma_lookup_first_match(t, j - 1);
    }
}

proof fn lemma_lookup_no_match(r: Seq<ChildNode>, name: Seq<char>)
    requires
        forall|k: int| 0 <= k < r.len() ==> r[k].name@ != name,
    ensures
        lookup(r, name) is None,
    decreases r.len(),
{
    if r.len() > 0 {
        let t = r.drop_first();
        assert(forall|k: int| 0 <= k < t.len() ==> t[k] == r[k + 1]);
        lemma_lookup_no_match(t, name);
    }
}

proof fn lemma_lookup_update(r: Seq<ChildNode>, j: int, t: PrefixTree, m: Seq<char>)
    requires
        0 <= j < r.len(),
        forall|k: int| 0 <= k < j ==> r[k].name@ != r[j].name@,
    ensures
        lookup(r.update(j, ChildNode { name: r[j].name, tree: t }), m) == if m == r[j].name@ {
            Some(t)
        } else {
            lookup(r, m)
        },
    decreases j,
{
    let r2 = r.update(j, ChildNode { name: r[j].name, tree: t });
    assert(r2[j].name == r[j].name);
    if j == 0 {
        if m != r[j].name@ {
            assert(r2.drop_first() =~= r.drop_first());
        }
    } else {
        let rt = r.drop_first();
        assert(forall|k: int| 0 <= k < rt.len() ==> rt[k] == r[k + 1]);
        lemma_lookup_update(rt, j - 1, t, m);
        assert(r2.drop_first() =~= rt.update(j - 1, ChildNode { name: rt[j - 1].name, tree: t }));
        assert(r2[0] == r[0]);
    }
}

proof fn lemma_lookup_push(r: Seq<ChildNode>, pair: ChildNode, m: Seq<char>)
    ensures
        lookup(r.push(pair), m) == match lookup(r, m) {
            Some(t) => Some(t),
            None => if pair.name@ == m {
                Some(pair.tree)
            } else {
                None
            },
        },
    decreases r.len(),
{
    if r.len() == 0 {
        assert(r.push(pair)[0] == pair);
        if pair.name@ != m {
            assert(r.push(pair).drop_first() =~= Seq::<ChildNode>::empty());
        }
    } else {
        assert(r.push(pair)[0] == r[0]);
        lemma_lookup_push(r.drop_first(), pair, m);
        assert(r.push(pair).drop_first() =~= r.drop_first().push(pair));
    }
}

/// For nonempty sequences with equal heads, prefix-ness is decided by the
/// tails.
proof fn lemma_prefix_step(p: Seq<Seq<char>>, s: Seq<Seq<char>>)
    requires
        p.len() > 0,
        s.len() > 0,
        p[0] == s[0],
    ensures
        is_prefix_of(p, s) == is_prefix_of(p.drop_first(), s.drop_first()),
{
    let pt = p.drop_first();
    let st = s.drop_first();
    if is_prefix_of(p, s) {
        assert(pt =~= st.take(pt.len() as int));
    }
    if is_prefix_of(pt, st) {
        assert forall|k: int| 0 <= k < p.len() implies p[k] == s.take(p.len() as int)[k] by {
            if k > 0 {
                assert(p[k] == pt[k - 1]);
                assert(pt[k - 1] == st.take(pt.len() as int)[k - 1]);
                assert(st[k - 1] == s[k]);
            }
        }
        assert(p =~= s.take(p.len() as int));
    }
}

/// The first child of `children` whose name is `name`, with everything the
/// search established about the earlier children.
fn find_child_index(children: &Vec<ChildNode>, name: &String) -> (r: Option<usize>)
    ensures
        match r {
            Some(j) => j < children@.len() && children@[j as int].name@ == name@ && forall|k: int|
                0 <= k < j ==> children@[k].name@ != name@,
            None => forall|k: int| 0 <= k < children@.len() ==> children@[k].name@ != name@,
        },
{
    let n = children.len();
    let mut j: usize = 0;
    while j < n
        invariant
            j <= n,
            n == children@.len(),
            forall|k: int| 0 <= k < j ==> children@[k].name@ != name@,
        decreases n - j,
    {
        if children[j].name == *name {
            return Some(j);
        }
        j += 1;
    }
    None
}

impl PrefixTree {
    /// The set of paths the tree holds: every chain of component names from
    /// the root downward.  The empty path is always held (it is the root).
    pub open spec fn contains_path(self, path: Seq<Seq<char>>) -> bool
        decreases path.len(),
    {
        if path.len() == 0 {
            true
        } else {
            match lookup(self.root@, path[0]) {
                None => false,
                Some(c) => c.contains_path(path.drop_first()),
            }
        }
    }

    pub fn new() -> (t: Self)
        ensures
            t.root@.len() == 0,
            forall|p: Seq<Seq<char>>| t.contains_path(p) == (p.len() == 0),
    {
        let t = PrefixTree { root: Vec::new() };
        proof {
            assert forall|p: Seq<Seq<char>>| t.contains_path(p) == (p.len() == 0) by {
                if p.len() > 0 {
                    assert(lookup(t.root@, p[0]) is None);
                }
            }
        }
        t
    }

    /// Insert a validated path: every prefix of `components` becomes a held
    /// path, intermediate nodes appearing implicitly; every previously held
    /// path is kept and nothing else appears.
    pub fn insert(&mut self, components: &Vec<String>)
        ensures
            forall|p: Seq<Seq<char>>|
                final(self).contains_path(p) == (old(self).contains_path(p) || is_prefix_of(
                    p,
                    views_of(components@),
                )),
    {
        self.insert_from(components, 0);
        proof {
            assert(views_of(components@).skip(0) =~= views_of(components@));
        }
    }

    fn insert_from(&mut self, components: &Vec<String>, from: usize)
        requires
            from <= components@.len(),
        ensures
            forall|p: Seq<Seq<char>>|
                final(self).contains_path(p) == (old(self).contains_path(p) || is_prefix_of(
                    p,
                    views_of(components@).skip(from as int),
                )),
        decreases components@.len() - from,
    {
        let ghost rest = views_of(components@).skip(from as int);
        if from == components.len() {
            proof {
                assert(rest =~= Seq::<Seq<char>>::empty());
                assert forall|p: Seq<Seq<char>>|
                    self.contains_path(p) == (self.contains_path(p) || is_prefix_of(p, rest)) by {
                    if is_prefix_of(p, rest) {
                        assert(p.len() == 0);
                    }
                }
            }
            return ;
        }
        let name = &components[from];
        proof {
            assert(rest.len() > 0);
            assert(rest[0] == name@);
            assert(rest.drop_first() =~= views_of(components@).skip(from as int + 1));
        }
        match find_child_index(&self.root, name) {
            Some(j) => {
                let ghost r0 = self.root@;
                let ghost c0 = r0[j as int].tree;
                let mut pair = self.root.remove(j);
                pair.tree.insert_from(components, from + 1);
                let ghost c1 = pair.tree;
                self.root.insert(j, pair);
                proof {
                    let t0 = *old(self);
                    let t1 = *self;
                    assert(t1.root@ =~= r0.update(j as int, ChildNode { name: r0[j as int].name, tree: c1 }));
                    assert forall|p: Seq<Seq<char>>|
                        t1.contains_path(p) == (t0.contains_path(p) || is_prefix_of(p, rest)) by {
                        if p.len() > 0 {
                            lemma_lookup_update(r0, j as int, c1, p[0]);
                            lemma_lookup_first_match(r0, j as int);
                            if p[0] == name@ {
                                assert(lookup(t1.root@, p[0]) == Some(c1));
                                assert(lookup(t0.root@, p[0]) == Some(c0));
                                lemma_prefix_step(p, rest);
                                assert(c1.contains_path(p.drop_first()) == (c0.contains_path(
                                    p.drop_first(),
                                ) || is_prefix_of(p.drop_first(), rest.drop_first())));
                            } else {
                                assert(lookup(t1.root@, p[0]) == lookup(t0.root@, p[0]));
                                if is_prefix_of(p, rest) {
                                    assert(p[0] == rest.take(p.len() as int)[0]);
                                }
                            }
                        }
                    }
                }
            },
            None => {
                let ghost r0 = self.root@;
                let mut pair = ChildNode { name: name.clone(), tree: PrefixTree { root: Vec::new() } };
                let ghost c0 = pair.tree;
                pair.tree.insert_from(components, from + 1);
                let ghost c1 = pair.tree;
                let ghost pr = pair;
                self.root.push(pair);
                proof {
                    let t0 = *old(self);
                    let t1 = *self;
                    assert(pr.name@ == name@);
                    assert(t1.root@ =~= r0.push(pr));
                    lemma_lookup_no_match(r0, name@);
                    assert forall|p: Seq<Seq<char>>|
                        t1.contains_path(p) == (t0.contains_path(p) || is_prefix_of(p, rest)) by {
                        if p.len() > 0 {
                            lemma_lookup_push(r0, pr, p[0]);
                            if p[0] == name@ {
                                assert(lookup(t1.root@, p[0]) == Some(c1));
                                assert(lookup(t0.root@, p[0]) is None);
                                lemma_prefix_step(p, rest);
                                assert(c1.contains_path(p.drop_first()) == (c0.contains_path(
                                    p.drop_first(),
                                ) || is_prefix_of(p.drop_first(), rest.drop_first())));
                                if p.drop_first().len() == 0 {
                                    assert(p.drop_first() =~= rest.drop_first().take(0));
                                } else {
                                    assert(lookup(c0.root@, p.drop_first()[0]) is None);
                                }
                            } else {
                                assert(lookup(t1.root@, p[0]) == lookup(t0.root@, p[0]));
                                if is_prefix_of(p, rest) {
                                    assert(p[0] == rest.take(p.len() as int)[0]);
                                }
                            }
                        }
                    }
                }
            },
        }
    }

    /// Whether the tree holds the path given by `components`.
    pub fn contains(&self, components: &Vec<String>) -> (r: bool)
        ensures
            r == self.contains_path(views_of(components@)),
    {
        let ghost pv = views_of(components@);
        proof {
            assert(pv.skip(0) =~= pv);
        }
        let mut cur: &PrefixTree = self;
        let n = components.len();
        let mut i: usize = 0;
        while i < n
            invariant
                i <= n,
                n == components@.len(),
                pv == views_of(components@),
                self.contains_path(pv) == cur.contains_path(pv.skip(i as int)),
            decreases n - i,
        {
            let ghost sp = pv.skip(i as int);
            proof {
                assert(sp.len() > 0);
                assert(sp[0] == pv[i as int]);
                assert(pv[i as int] == components@[i as int]@);
                assert(sp.drop_first() =~= pv.skip(i as int + 1));
            }
            match find_child_index(&cur.root, &components[i]) {
                Some(j) => {
                    proof {
                        lemma_lookup_first_match(cur.root@, j as int);
                    }
                    cur = &cur.root[j].tree;
                },
                None => {
                    proof {
                        lemma_lookup_no_match(cur.root@, sp[0]);
                    }
                    return false;
                },
            }
            i += 1;
        }
        proof {
            assert(pv.skip(n as int) =~= Seq::<Seq<char>>::empty());
        }
        true
    }
}

impl Default for PrefixTree {
    fn default() -> (t: Self)
        ensures
            t.root@.len() == 0,
            forall|p: Seq<Seq<char>>| t.contains_path(p) == (p.len() == 0),
    {
        PrefixTree::new()
    }
}

} // verus!
