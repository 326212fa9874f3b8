//! Prompt-cache stability tracking: sticky feature flags and cache-break counting.
use vstd::prelude::*;
use crate::hashing::{fingerprint, fingerprint_str};
use crate::text::{copy_str, str_eq};

verus! {

/// Tracks what would invalidate the provider's prompt cache.
#[derive(Debug)]
pub struct CacheTracker {
    current_mode: String,
    active_tools_hash: u64,
    system_prompt_hash: u64,
    memory_index_hash: u64,
    feature_flags: Vec<StickyFlag>,
    model_id: String,
    cache_breaks: u32,
    last_prompt_hash: u64,
}

/// A feature flag; once a sticky flag is active it stays active.
#[derive(Debug)]
pub struct StickyFlag {
    pub name: String,
    pub active: bool,
    pub sticky: bool,
}

/// Names of the active flags, in order.
pub open spec fn active_names(fs: Seq<StickyFlag>) -> Seq<Seq<char>>
    decreases fs.len(),
{
    if fs.len() == 0 {
        Seq::empty()
    } else if fs.last().active {
        active_names(fs.drop_last()).push(fs.last().name@)
    } else {
        active_names(fs.drop_last())
    }
}

/// Index of the first flag called `name`, if any.
pub open spec fn flag_index(fs: Seq<StickyFlag>, name: Seq<char>) -> Option<int> {
    if exists|i: int| 0 <= i < fs.len() && fs[i].name@ == name {
        Some(
            choose|i: int|
                0 <= i < fs.len() && fs[i].name@ == name && forall|j: int|
                    0 <= j < i ==> fs[j].name@ != name,
        )
    } else {
        None
    }
}

proof fn lemma_flag_index(fs: Seq<StickyFlag>, name: Seq<char>, i: int)
    requires
        0 <= i < fs.len(),
        fs[i].name@ == name,
        forall|j: int| 0 <= j < i ==> fs[j].name@ != name,
    ensures
        flag_index(fs, name) == Some(i),
{
    let k = choose|k: int|
        0 <= k < fs.len() && fs[k].name@ == name && forall|j: int| 0 <= j < k ==> fs[j].name@ != name;
    assert(0 <= k < fs.len() && fs[k].name@ == name && forall|j: int|
        0 <= j < k ==> fs[j].name@ != name);
    if k < i {
        assert(fs[k].name@ != name);
    }
    if i < k {
        assert(fs[i].name@ != name);
    }
}

proof fn lemma_active_names_push(fs: Seq<StickyFlag>, f: StickyFlag)
    ensures
        active_names(fs.push(f)) == if f.active {
            active_names(fs).push(f.name@)
        } else {
            active_names(fs)
        },
{
    assert(fs.push(f).drop_last() =~= fs);
}

proof fn lemma_active_names_contains(fs: Seq<StickyFlag>, i: int)
    requires
        0 <= i < fs.len(),
        fs[i].active,
    ensures
        active_names(fs).contains(fs[i].name@),
    decreases fs.len(),
{
    if i < fs.len() - 1 {
        lemma_active_names_contains(fs.drop_last(), i);
        let a = active_names(fs.drop_last());
        let k = choose|k: int| 0 <= k < a.len() && a[k] == fs[i].name@;
        if fs.last().active {
            assert(active_names(fs)[k] == a[k]);
        }
    } else {
        assert(active_names(fs).last() == fs[i].name@);
    }
}

/// When every flag is active, the active names are all the names, in order.
proof fn lemma_all_active_names(fs: Seq<StickyFlag>)
    requires
        forall|i: int| 0 <= i < fs.len() ==> #[trigger] fs[i].active,
    ensures
        active_names(fs) == fs.map_values(|f: StickyFlag| f.name@),
    decreases fs.len(),
{
    if fs.len() > 0 {
        let d = fs.drop_last();
        assert forall|i: int| 0 <= i < d.len() implies #[trigger] d[i].active by {
            assert(d[i] == fs[i]);
        }
        lemma_all_active_names(d);
        assert(fs.map_values(|f: StickyFlag| f.name@) =~= d.map_values(|f: StickyFlag| f.name@).push(fs.last().name@));
    }
}

impl CacheTracker {
    /// Every flag is sticky and active (flags are only ever switched on), and
    /// names are unique.
    pub closed spec fn wf(&self) -> bool {
        &&& forall|i: int| 0 <= i < self.feature_flags@.len() ==> #[trigger] self.feature_flags@[i].sticky
        &&& forall|i: int| 0 <= i < self.feature_flags@.len() ==> #[trigger] self.feature_flags@[i].active
        &&& forall|i: int, j: int|
            0 <= i < j < self.feature_flags@.len() ==> self.feature_flags@[i].name@
                != self.feature_flags@[j].name@
    }

    pub closed spec fn flags(&self) -> Seq<StickyFlag> {
        self.feature_flags@
    }

    pub closed spec fn mode(&self) -> Seq<char> {
        self.current_mode@
    }

    pub closed spec fn model(&self) -> Seq<char> {
        self.model_id@
    }

    pub closed spec fn breaks(&self) -> nat {
        self.cache_breaks as nat
    }

    pub closed spec fn last_hash(&self) -> nat {
        self.last_prompt_hash as nat
    }

    pub closed spec fn index_hash(&self) -> nat {
        self.memory_index_hash as nat
    }

    /// The names of the active flags.
    pub open spec fn active(&self) -> Seq<Seq<char>> {
        active_names(self.flags())
    }

    /// What a tracker keeps: flags are only ever switched on and never
    /// repeated, so every stored flag is sticky and active, no name occurs
    /// twice, the active names are all the stored names in order, and a name
    /// is active exactly when a flag carries it.
    pub proof fn lemma_flags_all_on(&self)
        requires
            self.wf(),
        ensures
            forall|i: int| 0 <= i < self.flags().len() ==> #[trigger] self.flags()[i].sticky && self.flags()[i].active,
            forall|i: int, j: int|
                0 <= i < j < self.flags().len() ==> #[trigger] self.flags()[i].name@ != #[trigger] self.flags()[j].name@,
            self.active() == self.flags().map_values(|f: StickyFlag| f.name@),
            forall|n: Seq<char>| #[trigger] self.active().contains(n) <==> flag_index(self.flags(), n) is Some,
    {
        let fs = self.flags();
        lemma_all_active_names(fs);
        assert forall|n: Seq<char>| #[trigger] self.active().contains(n) <==> flag_index(fs, n) is Some by {
            if self.active().contains(n) {
                let k = choose|k: int| 0 <= k < self.active().len() && self.active()[k] == n;
                assert(fs[k].name@ == n);
            }
            if flag_index(fs, n) is Some {
                let i = choose|i: int| 0 <= i < fs.len() && fs[i].name@ == n;
                assert(self.active()[i] == n);
            }
        }
    }

    /// A fresh tracker: mode "default", no flags, no model, no breaks.
    pub fn new() -> (t: Self)
        ensures
            t.wf(),
            t.mode() == "default"@,
            t.model() == Seq::<char>::empty(),
            t.flags() == Seq::<StickyFlag>::empty(),
            t.breaks() == 0,
            t.last_hash() == 0,
            t.index_hash() == 0,
    {
        CacheTracker {
            current_mode: copy_str("default"),
            active_tools_hash: 0,
            system_prompt_hash: 0,
            memory_index_hash: 0,
            feature_flags: Vec::new(),
            model_id: String::new(),
            cache_breaks: 0,
            last_prompt_hash: 0,
        }
    }

    fn find_flag(&self, name: &str) -> (r: Option<usize>)
        ensures
            r matches Some(i) ==> flag_index(self.flags(), name@) == Some(i as int),
            r is None ==> flag_index(self.flags(), name@) is None,
    {
        let mut i: usize = 0;
        while i < self.feature_flags.len()
            invariant
                i <= self.feature_flags.len(),
                forall|j: int| 0 <= j < i ==> self.feature_flags@[j].name@ != name@,
            decreases self.feature_flags.len() - i,
        {
            if str_eq(self.feature_flags[i].name.as_str(), name) {
                proof {
                    lemma_flag_index(self.flags(), name@, i as int);
                }
                return Some(i);
            }
            i = i + 1;
        }
        None
    }

    /// Turns a flag on, adding it as a sticky flag when it is new.
    pub fn activate_flag(&mut self, name: &str)
        requires
            old(self).wf(),
        ensures
            final(self).wf(),
            final(self).mode() == old(self).mode(),
            final(self).model() == old(self).model(),
            final(self).breaks() == old(self).breaks(),
            final(self).last_hash() == old(self).last_hash(),
            final(self).index_hash() == old(self).index_hash(),
            match flag_index(old(self).flags(), name@) {
                Some(i) => final(self).flags() == old(self).flags().update(
                    i,
                    StickyFlag { active: true, ..old(self).flags()[i] },
                ),
                None => final(self).flags() == old(self).flags().push(
                    StickyFlag { name: final(self).flags().last().name, active: true, sticky: true },
                ) && final(self).flags().last().name@ == name@,
            },
            final(self).active().contains(name@),
            forall|n: Seq<char>| old(self).active().contains(n) ==> final(self).active().contains(n),
            old(self).active().contains(name@) ==> final(self).flags() == old(self).flags(),
            !old(self).active().contains(name@) ==> final(self).active() == old(self).active().push(name@),
    {
        proof {
            self.lemma_flags_all_on();
        }
        let found = self.find_flag(name);
        let ghost old_flags = self.flags();
        match found {
            Some(i) => {
                let f = StickyFlag {
                    name: self.feature_flags[i].name.clone(),
                    active: true,
                    sticky: self.feature_flags[i].sticky,
                };
                self.feature_flags.set(i, f);
                proof {
                    assert(self.flags() =~= old_flags.update(
                        i as int,
                        StickyFlag { active: true, ..old_flags[i as int] },
                    ));
                    assert(self.flags() =~= old_flags);
                    lemma_active_names_contains(self.flags(), i as int);
                    assert forall|n: Seq<char>| active_names(old_flags).contains(n) implies #[trigger] self.active().contains(n) by {
                        lemma_active_names_mono(old_flags, self.flags(), n);
                    }
                }
            },
            None => {
                self.feature_flags.push(StickyFlag { name: copy_str(name), active: true, sticky: true });
                proof {
                    lemma_active_names_push(old_flags, self.flags().last());
                    assert(self.flags().drop_last() =~= old_flags);
                    assert forall|n: Seq<char>| active_names(old_flags).contains(n) implies #[trigger] self.active().contains(n) by {
                        let k = choose|k: int| 0 <= k < active_names(old_flags).len() && active_names(old_flags)[k] == n;
                        assert(self.active()[k] == n);
                    }
                    assert(self.active().last() == name@);
                }
            },
        }
    }

    /// Turns a flag off; refuses (returns `false`, changes nothing) when the
    /// flag is sticky and active, since that would break the prompt cache.
    /// Every flag being sticky and active, a flag once switched on is never
    /// switched off: a known name is refused, an unknown one changes nothing.
    pub fn deactivate_flag(&mut self, name: &str) -> (ok: bool)
        requires
            old(self).wf(),
        ensures
            final(self).wf(),
            final(self).mode() == old(self).mode(),
            final(self).model() == old(self).model(),
            final(self).breaks() == old(self).breaks(),
            final(self).last_hash() == old(self).last_hash(),
            final(self).index_hash() == old(self).index_hash(),
            match flag_index(old(self).flags(), name@) {
                Some(i) => if old(self).flags()[i].sticky && old(self).flags()[i].active {
                    !ok && final(self).flags() == old(self).flags()
                } else {
                    ok && final(self).flags() == old(self).flags().update(
                        i,
                        StickyFlag { active: false, ..old(self).flags()[i] },
                    )
                },
                None => ok && final(self).flags() == old(self).flags(),
            },
            final(self).flags() == old(self).flags(),
            ok == flag_index(old(self).flags(), name@) is None,
            final(self).active() == old(self).active(),
            ok == !old(self).active().contains(name@),
    {
        proof {
            self.lemma_flags_all_on();
        }
        let found = self.find_flag(name);
        match found {
            Some(i) => {
                if self.feature_flags[i].sticky && self.feature_flags[i].active {
                    return false;
                }
                let ghost old_flags = self.flags();
                let f = StickyFlag {
                    name: self.feature_flags[i].name.clone(),
                    active: false,
                    sticky: self.feature_flags[i].sticky,
                };
                self.feature_flags.set(i, f);
                proof {
                    assert(self.flags() =~= old_flags.update(
                        i as int,
                        StickyFlag { active: false, ..old_flags[i as int] },
                    ));
                }
                true
            },
            None => true,
        }
    }

    /// Records the prompt sent; a changed fingerprint after the first prompt
    /// is a cache break.
    pub fn record_prompt(&mut self, prompt: &str)
        requires
            old(self).wf(),
            old(self).breaks() < u32::MAX,
        ensures
            final(self).wf(),
            final(self).flags() == old(self).flags(),
            final(self).mode() == old(self).mode(),
            final(self).model() == old(self).model(),
            final(self).index_hash() == old(self).index_hash(),
            final(self).last_hash() == fingerprint(prompt@),
            final(self).breaks() == if fingerprint(prompt@) != old(self).last_hash()
                && old(self).last_hash() != 0 {
                old(self).breaks() + 1
            } else {
                old(self).breaks()
            },
    {
        let new_hash = fingerprint_str(prompt);
        if new_hash != self.last_prompt_hash && self.last_prompt_hash != 0 {
            self.cache_breaks = self.cache_breaks + 1;
        }
        self.last_prompt_hash = new_hash;
    }

    /// Sets the mode; `true` when it changed.
    pub fn update_mode(&mut self, mode: &str) -> (changed: bool)
        requires
            old(self).wf(),
        ensures
            final(self).wf(),
            changed == (old(self).mode() != mode@),
            final(self).mode() == mode@,
            final(self).flags() == old(self).flags(),
            final(self).model() == old(self).model(),
            final(self).breaks() == old(self).breaks(),
            final(self).last_hash() == old(self).last_hash(),
            final(self).index_hash() == old(self).index_hash(),
    {
        if !str_eq(self.current_mode.as_str(), mode) {
            self.current_mode = copy_str(mode);
            true
        } else {
            false
        }
    }

    /// Sets the model; `true` when it changed.
    pub fn update_model(&mut self, model_id: &str) -> (changed: bool)
        requires
            old(self).wf(),
        ensures
            final(self).wf(),
            changed == (old(self).model() != model_id@),
            final(self).model() == model_id@,
            final(self).flags() == old(self).flags(),
            final(self).mode() == old(self).mode(),
            final(self).breaks() == old(self).breaks(),
            final(self).last_hash() == old(self).last_hash(),
            final(self).index_hash() == old(self).index_hash(),
    {
        if !str_eq(self.model_id.as_str(), model_id) {
            self.model_id = copy_str(model_id);
            true
        } else {
            false
        }
    }

    /// Records the memory index content; `true` when its fingerprint changed.
    pub fn update_memory_index(&mut self, index_content: &str) -> (changed: bool)
        requires
            old(self).wf(),
        ensures
            final(self).wf(),
            changed == (old(self).index_hash() != fingerprint(index_content@)),
            final(self).index_hash() == fingerprint(index_content@),
            final(self).flags() == old(self).flags(),
            final(self).mode() == old(self).mode(),
            final(self).model() == old(self).model(),
            final(self).breaks() == old(self).breaks(),
            final(self).last_hash() == old(self).last_hash(),
    {
        let new_hash = fingerprint_str(index_content);
        if self.memory_index_hash != new_hash {
            self.memory_index_hash = new_hash;
            true
        } else {
            false
        }
    }

    /// Number of cache breaks so far.
    pub fn total_cache_breaks(&self) -> (n: u32)
        ensures
            n == self.breaks(),
    {
        self.cache_breaks
    }

    /// Names of the active flags, in insertion order.
    pub fn active_flags(&self) -> (names: Vec<String>)
        ensures
            names.deep_view() == self.active(),
    {
        let mut names: Vec<String> = Vec::new();
        let mut i: usize = 0;
        while i < self.feature_flags.len()
            invariant
                i <= self.feature_flags.len(),
                names.deep_view() == active_names(self.flags().take(i as int)),
            decreases self.feature_flags.len() - i,
        {
            proof {
                assert(self.flags().take(i + 1).drop_last() =~= self.flags().take(i as int));
            }
            if self.feature_flags[i].active {
                let ghost before = names.deep_view();
                names.push(copy_str(self.feature_flags[i].name.as_str()));
                assert(names.deep_view() =~= before.push(self.flags()[i as int].name@));
            }
            i = i + 1;
        }
        assert(self.flags().take(i as int) =~= self.flags());
        names
    }
}

proof fn lemma_active_names_mono(fs: Seq<StickyFlag>, gs: Seq<StickyFlag>, n: Seq<char>)
    requires
        fs.len() == gs.len(),
        forall|k: int| 0 <= k < fs.len() ==> (#[trigger] fs[k]).name@ == gs[k].name@,
        forall|k: int| 0 <= k < fs.len() ==> #[trigger] fs[k].active ==> gs[k].active,
        active_names(fs).contains(n),
    ensures
        active_names(gs).contains(n),
    decreases fs.len(),
{
    if fs.len() > 0 {
        let k = choose|k: int| 0 <= k < active_names(fs).len() && active_names(fs)[k] == n;
        if fs.last().active && k == active_names(fs).len() - 1 {
            assert(gs.last().active);
            assert(active_names(gs).last() == n);
        } else {
            if fs.last().active {
                assert(active_names(fs.drop_last())[k] == n);
            }
            assert(active_names(fs.drop_last()).contains(n));
            lemma_active_names_mono(fs.drop_last(), gs.drop_last(), n);
            let a = active_names(gs.drop_last());
            let m = choose|m: int| 0 <= m < a.len() && a[m] == n;
            if gs.last().active {
                assert(active_names(gs)[m] == n);
            }
        }
    }
}

} // verus!
