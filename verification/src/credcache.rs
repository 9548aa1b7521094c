use vstd::prelude::*;

verus! {

/// The two password-verification bytes derived from an encrypted entry's
/// header.  Entries sharing a token are assumed to share a password; this is
/// a probabilistic assumption inherited from the container format.
#[derive(Debug, Clone, Copy, PartialEq, Eq, Structural)]
pub struct VerificationToken {
    pub b0: u8,
    pub b1: u8,
}

/// Mapping from verification token to a previously supplied password, scoped
/// to one extraction run and discarded at its end.
pub struct CredentialCache {
    entries: Vec<(VerificationToken, Vec<u8>)>,
}

/// The mapping described by an association list; a later binding for a token
/// shadows an earlier one.
pub open spec fn bindings_of(s: Seq<(VerificationToken, Vec<u8>)>) -> Map<
    VerificationToken,
    Seq<u8>,
>
    decreases s.len(),
{
    if s.len() == 0 {
        Map::empty()
    } else {
        bindings_of(s.drop_last()).insert(s.last().0, s.last().1@)
    }
}

proof fn lemma_bindings_domain(s: Seq<(VerificationToken, Vec<u8>)>, t: VerificationToken)
    ensures
        bindings_of(s).contains_key(t) == exists|k: int| 0 <= k < s.len() && s[k].0 == t,
    decreases s.len(),
{
    if s.len() > 0 {
        lemma_bindings_domain(s.drop_last(), t);
        if bindings_of(s).contains_key(t) {
            if s.last().0 == t {
                assert(s[s.len() - 1].0 == t);
            } else {
                let k = choose|k: int| 0 <= k < s.drop_last().len() && s.drop_last()[k].0 == t;
                assert(s[k].0 == t);
            }
        } else {
            assert(forall|k: int| 0 <= k < s.drop_last().len() ==> s.drop_last()[k] == s[k]);
        }
    }
}

proof fn lemma_bindings_at(s: Seq<(VerificationToken, Vec<u8>)>, j: int)
    requires
        0 <= j < s.len(),
        forall|k: int| j < k < s.len() ==> s[k].0 != s[j].0,
    ensures
        bindings_of(s).contains_key(s[j].0),
        bindings_of(s)[s[j].0] == s[j].1@,
    decreases s.len(),
{
    if j == s.len() - 1 {
        assert(s.last() == s[j]);
    } else {
        let t = s.drop_last();
        assert(t[j] == s[j]);
        assert(forall|k: int| j < k < t.len() ==> t[k] == s[k]);
        lemma_bindings_at(t, j);
        assert(s[s.len() - 1].0 != s[j].0);
    }
}

impl View for CredentialCache {
    type V = Map<VerificationToken, Seq<u8>>;

    closed spec fn view(&self) -> Map<VerificationToken, Seq<u8>> {
        bindings_of(self.entries@)
    }
}

impl CredentialCache {
    /// Each token is bound at most once.
    pub closed spec fn wf(&self) -> bool {
        forall|i: int, j: int|
            0 <= i < j < self.entries@.len() ==> self.entries@[i].0 != self.entries@[j].0
    }

    pub fn new() -> (c: Self)
        ensures
            c@ == Map::<VerificationToken, Seq<u8>>::empty(),
            c.wf(),
    {
        CredentialCache { entries: Vec::new() }
    }

    /// The cached password for `t`, if one was supplied earlier in this run.
    pub fn lookup(&self, t: VerificationToken) -> (r: Option<Vec<u8>>)
        requires
            self.wf(),
        ensures
            match r {
                Some(p) => self@.contains_key(t) && p@ == self@[t],
                None => !self@.contains_key(t),
            },
    {
        let n = self.entries.len();
        let mut i: usize = 0;
        while i < n
            invariant
                self.wf(),
                n == self.entries@.len(),
                i <= n,
                forall|k: int| 0 <= k < i ==> self.entries@[k].0 != t,
            decreases n - i,
        {
            if self.entries[i].0 == t {
                proof {
                    lemma_bindings_at(self.entries@, i as int);
                }
                return Some(self.entries[i].1.clone());
            }
            i += 1;
        }
        proof {
            lemma_bindings_domain(self.entries@, t);
        }
        None
    }

    /// Cache the password supplied for `t`.
    pub fn store(&mut self, t: VerificationToken, password: Vec<u8>)
        requires
            old(self).wf(),
            !old(self)@.contains_key(t),
        ensures
            final(self).wf(),
            final(self)@ == old(self)@.insert(t, password@),
    {
        proof {
            lemma_bindings_domain(self.entries@, t);
        }
        let ghost s0 = self.entries@;
        self.entries.push((t, password));
        proof {
            assert(self.entries@.drop_last() =~= s0);
            assert(self.entries@.last() == (t, self.entries@.last().1));
        }
    }
}

} // verus!
