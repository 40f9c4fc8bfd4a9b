use vstd::prelude::*;

verus! {

/// A conversation thread: one row of the `threads` table.
pub struct Thread {
    pub id: String,
    pub title: String,
    pub workspace_id: Option<String>,
    pub model: Option<String>,
    pub mode: Option<String>,
    pub created_at: String,
    pub updated_at: String,
}

/// One message of a thread: one row of the `messages` table.
pub struct Message {
    pub id: String,
    pub thread_id: String,
    pub role: String,
    pub content: Option<String>,
    pub tool_calls: Option<String>,
    pub timestamp: String,
}

/// A key-value setting: one row of the `settings` table.
pub struct Setting {
    pub key: String,
    pub value: String,
    pub updated_at: String,
}

/// Why a write was rejected by the store's constraints.
#[derive(Debug, Clone, Copy, PartialEq, Eq, Structural)]
pub enum StoreError {
    /// A row with the same primary key is already present.
    DuplicateKey,
    /// A message names a thread that does not exist.
    ForeignKeyViolation,
}

/// The rows of the three tables, with their key and reference constraints.
pub struct Store {
    pub threads: Vec<Thread>,
    pub messages: Vec<Message>,
    pub settings: Vec<Setting>,
}

/// Keeps every thread whose id is not `id`.
pub open spec fn thread_kept(id: Seq<char>) -> spec_fn(Thread) -> bool {
    |t: Thread| t.id@ != id
}

/// Keeps every message that does not belong to the thread `id`.
pub open spec fn message_kept(id: Seq<char>) -> spec_fn(Message) -> bool {
    |m: Message| m.thread_id@ != id
}

pub open spec fn thread_ids_unique(s: Seq<Thread>) -> bool {
    forall|i: int, j: int| 0 <= i < j < s.len() ==> s[i].id@ != s[j].id@
}

pub open spec fn message_ids_unique(s: Seq<Message>) -> bool {
    forall|i: int, j: int| 0 <= i < j < s.len() ==> s[i].id@ != s[j].id@
}

pub open spec fn setting_keys_unique(s: Seq<Setting>) -> bool {
    forall|i: int, j: int| 0 <= i < j < s.len() ==> s[i].key@ != s[j].key@
}

proof fn lemma_filter_take_step<A>(s: Seq<A>, p: spec_fn(A) -> bool, k: int)
    requires
        0 <= k < s.len(),
    ensures
        s.take(k + 1).filter(p) == (if p(s[k]) {
            s.take(k).filter(p).push(s[k])
        } else {
            s.take(k).filter(p)
        }),
{
    reveal(Seq::filter);
    assert(s.take(k + 1).drop_last() =~= s.take(k));
}

/// Removes from `v` every thread whose id is `id`, keeping the order of the rest.
fn remove_threads_with_id(v: &mut Vec<Thread>, id: &String)
    requires
        thread_ids_unique(old(v)@),
    ensures
        final(v)@ == old(v)@.filter(thread_kept(id@)),
        thread_ids_unique(final(v)@),
{
    let ghost orig = v@;
    let ghost mut k: int = 0;
    let mut i: usize = 0;
    while i < v.len()
        invariant
            0 <= i <= k <= orig.len(),
            v@.len() == i + (orig.len() - k),
            v@.take(i as int) == orig.take(k).filter(thread_kept(id@)),
            v@.skip(i as int) == orig.skip(k),
            thread_ids_unique(v@),
        decreases orig.len() - k,
    {
        proof {
            assert(v@.skip(i as int)[0] == orig.skip(k)[0]);
            lemma_filter_take_step(orig, thread_kept(id@), k);
        }
        let ghost pre = v@;
        if v[i].id == *id {
            v.remove(i);
            proof {
                assert(v@.take(i as int) =~= pre.take(i as int));
                assert(v@.skip(i as int) =~= pre.skip(i as int).drop_first());
                assert(orig.skip(k + 1) =~= orig.skip(k).drop_first());
                assert forall|a: int, b: int| 0 <= a < b < v@.len() implies v@[a].id@ != v@[b].id@ by {
                    let a2 = if a < i { a } else { a + 1 };
                    let b2 = if b < i { b } else { b + 1 };
                    assert(v@[a] == pre[a2]);
                    assert(v@[b] == pre[b2]);
                }
            }
        } else {
            i = i + 1;
            proof {
                assert(v@.take(i as int) =~= pre.take(i - 1).push(pre[i - 1]));
                assert(v@.skip(i as int) =~= pre.skip(i - 1).drop_first());
                assert(orig.skip(k + 1) =~= orig.skip(k).drop_first());
            }
        }
        proof {
            k = k + 1;
        }
    }
    proof {
        assert(v@ =~= v@.take(i as int));
        assert(orig.take(k) =~= orig);
    }
}

/// Removes from `v` every message of the thread `id`, keeping the order of the rest.
fn remove_messages_of_thread(v: &mut Vec<Message>, id: &String)
    requires
        message_ids_unique(old(v)@),
    ensures
        final(v)@ == old(v)@.filter(message_kept(id@)),
        message_ids_unique(final(v)@),
{
    let ghost orig = v@;
    let ghost mut k: int = 0;
    let mut i: usize = 0;
    while i < v.len()
        invariant
            0 <= i <= k <= orig.len(),
            v@.len() == i + (orig.len() - k),
            v@.take(i as int) == orig.take(k).filter(message_kept(id@)),
            v@.skip(i as int) == orig.skip(k),
            message_ids_unique(v@),
        decreases orig.len() - k,
    {
        proof {
            assert(v@.skip(i as int)[0] == orig.skip(k)[0]);
            lemma_filter_take_step(orig, message_kept(id@), k);
        }
        let ghost pre = v@;
        if v[i].thread_id == *id {
            v.remove(i);
            proof {
                assert(v@.take(i as int) =~= pre.take(i as int));
                assert(v@.skip(i as int) =~= pre.skip(i as int).drop_first());
                assert(orig.skip(k + 1) =~= orig.skip(k).drop_first());
                assert forall|a: int, b: int| 0 <= a < b < v@.len() implies v@[a].id@ != v@[b].id@ by {
                    let a2 = if a < i { a } else { a + 1 };
                    let b2 = if b < i { b } else { b + 1 };
                    assert(v@[a] == pre[a2]);
                    assert(v@[b] == pre[b2]);
                }
            }
        } else {
            i = i + 1;
            proof {
                assert(v@.take(i as int) =~= pre.take(i - 1).push(pre[i - 1]));
                assert(v@.skip(i as int) =~= pre.skip(i - 1).drop_first());
                assert(orig.skip(k + 1) =~= orig.skip(k).drop_first());
            }
        }
        proof {
            k = k + 1;
        }
    }
    proof {
        assert(v@ =~= v@.take(i as int));
        assert(orig.take(k) =~= orig);
    }
}

/// Deleting a thread removes exactly the messages of that thread: a message
/// remains if and only if it was there before and belongs to another thread.
pub proof fn cascade_removes_exactly_thread_messages(messages: Seq<Message>, id: Seq<char>)
    ensures
        forall|m: Message|
            #[trigger] messages.filter(message_kept(id)).contains(m) <==> (messages.contains(m)
                && m.thread_id@ != id),
{
    assert forall|m: Message|
        #[trigger] messages.filter(message_kept(id)).contains(m) <==> (messages.contains(m)
            && m.thread_id@ != id) by {
        let f = messages.filter(message_kept(id));
        if f.contains(m) {
            messages.lemma_filter_contains_rev(message_kept(id), m);
            let i = choose|i: int| 0 <= i < f.len() && f[i] == m;
            messages.lemma_filter_pred(message_kept(id), i);
        }
        if messages.contains(m) && m.thread_id@ != id {
            let i = choose|i: int| 0 <= i < messages.len() && messages[i] == m;
            messages.lemma_filter_contains(message_kept(id), i);
        }
    }
}

/// Once a setting has been inserted, a second setting with the same key is
/// refused: the store it left holds that key, so `insert_setting` answers
/// `DuplicateKey`.
pub proof fn second_setting_with_same_key_is_refused(before: Store, after: Store, a: Setting, b: Setting)
    requires
        after.settings@ == before.settings@.push(a),
        b.key@ == a.key@,
    ensures
        after.has_setting(b.key@),
{
    assert(after.settings@[before.settings@.len() as int] == a);
}

impl Store {
    pub open spec fn has_thread(&self, id: Seq<char>) -> bool {
        exists|i: int| 0 <= i < self.threads@.len() && #[trigger] self.threads@[i].id@ == id
    }

    pub open spec fn has_message(&self, id: Seq<char>) -> bool {
        exists|i: int| 0 <= i < self.messages@.len() && #[trigger] self.messages@[i].id@ == id
    }

    pub open spec fn has_setting(&self, key: Seq<char>) -> bool {
        exists|i: int| 0 <= i < self.settings@.len() && #[trigger] self.settings@[i].key@ == key
    }

    /// Primary keys are unique in each table, and every message refers to
    /// an existing thread.
    pub open spec fn wf(&self) -> bool {
        &&& thread_ids_unique(self.threads@)
        &&& message_ids_unique(self.messages@)
        &&& setting_keys_unique(self.settings@)
        &&& forall|i: int|
            0 <= i < self.messages@.len() ==> self.has_thread(#[trigger] self.messages@[i].thread_id@)
    }

    /// An empty store.
    pub fn new() -> (r: Store)
        ensures
            r.wf(),
            r.threads@.len() == 0,
            r.messages@.len() == 0,
            r.settings@.len() == 0,
    {
        Store { threads: Vec::new(), messages: Vec::new(), settings: Vec::new() }
    }

    /// Whether a thread with this id is present.
    pub fn contains_thread(&self, id: &String) -> (r: bool)
        ensures
            r == self.has_thread(id@),
    {
        let mut i: usize = 0;
        while i < self.threads.len()
            invariant
                i <= self.threads@.len(),
                forall|j: int| 0 <= j < i ==> self.threads@[j].id@ != id@,
            decreases self.threads@.len() - i,
        {
            if self.threads[i].id == *id {
                return true;
            }
            i = i + 1;
        }
        false
    }

    /// Whether a message with this id is present.
    pub fn contains_message(&self, id: &String) -> (r: bool)
        ensures
            r == self.has_message(id@),
    {
        let mut i: usize = 0;
        while i < self.messages.len()
            invariant
                i <= self.messages@.len(),
                forall|j: int| 0 <= j < i ==> self.messages@[j].id@ != id@,
            decreases self.messages@.len() - i,
        {
            if self.messages[i].id == *id {
                return true;
            }
            i = i + 1;
        }
        false
    }

    /// Whether a setting with this key is present.
    pub fn contains_setting(&self, key: &String) -> (r: bool)
        ensures
            r == self.has_setting(key@),
    {
        let mut i: usize = 0;
        while i < self.settings.len()
            invariant
                i <= self.settings@.len(),
                forall|j: int| 0 <= j < i ==> self.settings@[j].key@ != key@,
            decreases self.settings@.len() - i,
        {
            if self.settings[i].key == *key {
                return true;
            }
            i = i + 1;
        }
        false
    }

    /// Adds a thread, unless its id is taken.
    pub fn insert_thread(&mut self, t: Thread) -> (r: Result<(), StoreError>)
        requires
            old(self).wf(),
        ensures
            final(self).wf(),
            old(self).has_thread(t.id@) ==> r == Err::<(), StoreError>(StoreError::DuplicateKey)
                && *final(self) == *old(self),
            !old(self).has_thread(t.id@) ==> r is Ok && final(self).threads@ == old(
                self,
            ).threads@.push(t) && final(self).messages == old(self).messages
                && final(self).settings == old(self).settings,
    {
        if self.contains_thread(&t.id) {
            return Err(StoreError::DuplicateKey);
        }
        let ghost before = *self;
        self.threads.push(t);
        assert forall|i: int| 0 <= i < self.messages@.len() implies self.has_thread(
            #[trigger] self.messages@[i].thread_id@,
        ) by {
            let j = choose|j: int|
                0 <= j < before.threads@.len() && #[trigger] before.threads@[j].id@
                    == before.messages@[i].thread_id@;
            assert(self.threads@[j] == before.threads@[j]);
        }
        Ok(())
    }

    /// Adds a message, unless its id is taken or its thread does not exist.
    pub fn insert_message(&mut self, m: Message) -> (r: Result<(), StoreError>)
        requires
            old(self).wf(),
        ensures
            final(self).wf(),
            old(self).has_message(m.id@) ==> r == Err::<(), StoreError>(StoreError::DuplicateKey)
                && *final(self) == *old(self),
            !old(self).has_message(m.id@) && !old(self).has_thread(m.thread_id@) ==> r == Err::<
                (),
                StoreError,
            >(StoreError::ForeignKeyViolation) && *final(self) == *old(self),
            !old(self).has_message(m.id@) && old(self).has_thread(m.thread_id@) ==> r is Ok
                && final(self).messages@ == old(self).messages@.push(m) && final(self).threads
                == old(self).threads && final(self).settings == old(self).settings,
    {
        if self.contains_message(&m.id) {
            return Err(StoreError::DuplicateKey);
        }
        if !self.contains_thread(&m.thread_id) {
            return Err(StoreError::ForeignKeyViolation);
        }
        let ghost before = *self;
        let ghost mm = m;
        self.messages.push(m);
        assert forall|i: int| 0 <= i < self.messages@.len() implies self.has_thread(
            #[trigger] self.messages@[i].thread_id@,
        ) by {
            let tid = self.messages@[i].thread_id@;
            if i < before.messages@.len() {
                assert(self.messages@[i] == before.messages@[i]);
                assert(before.has_thread(before.messages@[i].thread_id@));
            } else {
                assert(self.messages@[i] == mm);
            }
            assert(before.has_thread(tid));
            let j = choose|j: int|
                0 <= j < before.threads@.len() && #[trigger] before.threads@[j].id@ == tid;
            assert(self.threads@[j].id@ == tid);
        }
        Ok(())
    }

    /// Adds a setting, unless its key is taken.
    pub fn insert_setting(&mut self, s: Setting) -> (r: Result<(), StoreError>)
        requires
            old(self).wf(),
        ensures
            final(self).wf(),
            old(self).has_setting(s.key@) ==> r == Err::<(), StoreError>(StoreError::DuplicateKey)
                && *final(self) == *old(self),
            !old(self).has_setting(s.key@) ==> r is Ok && final(self).settings@ == old(
                self,
            ).settings@.push(s) && final(self).threads == old(self).threads
                && final(self).messages == old(self).messages,
    {
        if self.contains_setting(&s.key) {
            return Err(StoreError::DuplicateKey);
        }
        self.settings.push(s);
        Ok(())
    }
    /// Deletes the thread `id` and, by cascade, every message of it.
    /// Returns whether such a thread was present.
    pub fn delete_thread(&mut self, id: &String) -> (r: bool)
        requires
            old(self).wf(),
        ensures
            final(self).wf(),
            r == old(self).has_thread(id@),
            final(self).threads@ == old(self).threads@.filter(thread_kept(id@)),
            final(self).messages@ == old(self).messages@.filter(message_kept(id@)),
            final(self).settings == old(self).settings,
    {
        let r = self.contains_thread(id);
        let ghost before = *self;
        remove_threads_with_id(&mut self.threads, id);
        remove_messages_of_thread(&mut self.messages, id);
        proof {
            assert forall|i: int| 0 <= i < self.messages@.len() implies self.has_thread(
                #[trigger] self.messages@[i].thread_id@,
            ) by {
                let m = self.messages@[i];
                assert(self.messages@.contains(m));
                before.messages@.lemma_filter_contains_rev(message_kept(id@), m);
                before.messages@.lemma_filter_pred(message_kept(id@), i);
                let a = choose|a: int| 0 <= a < before.messages@.len() && before.messages@[a] == m;
                assert(before.has_thread(before.messages@[a].thread_id@));
                let j = choose|j: int|
                    0 <= j < before.threads@.len() && #[trigger] before.threads@[j].id@
                        == m.thread_id@;
                assert(thread_kept(id@)(before.threads@[j]));
                before.threads@.lemma_filter_contains(thread_kept(id@), j);
                assert(self.threads@.contains(before.threads@[j]));
                let b = choose|b: int| 0 <= b < self.threads@.len() && self.threads@[b] == before.threads@[j];
                assert(self.threads@[b].id@ == m.thread_id@);
            }
        }
        r
    }
}

} // verus!
