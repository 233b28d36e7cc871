//! The routing table of incoming voice: for each remote user, the channel
//! that feeds that user's playback.  The channels themselves are the front
//! end's; the table keeps one per user name.
use vstd::prelude::*;
use vstd::string::StringExecFns;

verus! {

/// The error text for a user that already has a sender.
pub open spec fn already_exists_text(name: Seq<char>) -> Seq<char> {
    "Sender for "@ + name + " already exists"@
}

/// The error text for a user without a sender.
pub open spec fn not_found_text(name: Seq<char>) -> Seq<char> {
    "No sender found for "@ + name
}

/// The error text for a packet the user's channel did not take.
pub open spec fn send_failed_text(name: Seq<char>) -> Seq<char> {
    "Failed to send packet to "@ + name
}

/// Manages voice packet routing for all connected remote users
pub struct UserVoiceStreamManager<S> {
    /// Kept as a list of (name, value) entries with distinct names rather
    /// than a `HashMap<String, _>`: that map form was tried, and Verus proved
    /// neither that a lookup finds a key the map holds nor the map's size
    /// after an insert, since its specification of std maps covers no
    /// `String` key.
    senders: Vec<(String, S)>,
}

/// No user name is listed twice.
pub open spec fn names_distinct<S>(entries: Seq<(Seq<char>, S)>) -> bool {
    forall|a: int, b: int| 0 <= a < b < entries.len() ==> entries[a].0 != entries[b].0
}

/// `name` is listed.
pub open spec fn has_name<S>(entries: Seq<(Seq<char>, S)>, name: Seq<char>) -> bool {
    exists|j: int| 0 <= j < entries.len() && entries[j].0 == name
}

/// Where `name` is listed.
pub open spec fn name_pos<S>(entries: Seq<(Seq<char>, S)>, name: Seq<char>) -> int {
    choose|j: int| 0 <= j < entries.len() && entries[j].0 == name
}

/// A user has at most one sender: once registered, registering again is
/// refused until the sender is unregistered.
pub proof fn lemma_one_sender_per_user<S>(entries: Seq<(Seq<char>, S)>, name: Seq<char>, s: S)
    requires
        names_distinct(entries),
        !has_name(entries, name),
    ensures
        has_name(entries.push((name, s)), name),
        names_distinct(entries.push((name, s))),
        entries.push((name, s))[name_pos(entries.push((name, s)), name)].1 == s,
        !has_name(
            entries.push((name, s)).remove(name_pos(entries.push((name, s)), name)),
            name,
        ),
{
    let e = entries.push((name, s));
    assert(e[entries.len() as int].0 == name);
    let p = name_pos(e, name);
    assert(p == entries.len()) by {
        if p < entries.len() {
            assert(e[p] == entries[p]);
        }
    }
    assert(e.remove(p) =~= entries);
}

impl<S> View for UserVoiceStreamManager<S> {
    type V = Seq<(Seq<char>, S)>;

    closed spec fn view(&self) -> Seq<(Seq<char>, S)> {
        self.senders@.map_values(|e: (String, S)| (e.0@, e.1))
    }
}

/// The text `a` followed by `b`.
fn joined(a: &str, b: &str) -> (s: String)
    ensures
        s@ == a@ + b@,
{
    a.to_owned().concat(b)
}

impl<S> UserVoiceStreamManager<S> {
    /// Create a new stream manager
    pub fn new() -> (m: Self)
        ensures
            m@ == Seq::<(Seq<char>, S)>::empty(),
    {
        let m = UserVoiceStreamManager { senders: Vec::new() };
        assert(m@ =~= Seq::<(Seq<char>, S)>::empty());
        m
    }

    /// Where `username` is listed, if it is.
    fn find(&self, username: &String) -> (r: Option<usize>)
        requires
            names_distinct(self@),
        ensures
            match r {
                Some(j) => j < self@.len() && has_name(self@, username@) && j == name_pos(
                    self@,
                    username@,
                ),
                None => !has_name(self@, username@),
            },
    {
        let ghost h = self@;
        let mut j: usize = 0;
        while j < self.senders.len()
            invariant
                h == self@,
                names_distinct(h),
                j <= h.len(),
                h.len() == self.senders@.len(),
                forall|k: int| 0 <= k < j ==> h[k].0 != username@,
            decreases self.senders.len() - j,
        {
            assert(h[j as int].0 == self.senders@[j as int].0@);
            if self.senders[j].0 == *username {
                proof {
                    let p = name_pos(h, username@);
                    assert(has_name(h, username@));
                    assert(p == j) by {
                        if p < j {
                            assert(h[p].0 != username@);
                        } else if p > j {
                            assert(h[j as int].0 != h[p].0);
                        }
                    }
                }
                return Some(j);
            }
            j = j + 1;
        }
        None
    }

    /// Register a user's voice packet sender; a user that has one keeps it
    /// and the new one is refused.
    pub fn register_sender(&mut self, username: String, sender: S) -> (r: Result<(), String>)
        requires
            names_distinct(old(self)@),
        ensures
            names_distinct(final(self)@),
            has_name(old(self)@, username@) ==> (r matches Err(e) && e@ == already_exists_text(
                username@,
            )) && final(self)@ == old(self)@,
            !has_name(old(self)@, username@) ==> r is Ok && final(self)@ == old(self)@.push(
                (username@, sender),
            ),
    {
        match self.find(&username) {
            Some(_) => {
                let text = joined("Sender for ", username.as_str());
                proof {
                    reveal_strlit("Sender for ");
                    reveal_strlit(" already exists");
                }
                Err(text.concat(" already exists"))
            },
            None => {
                let ghost before = self@;
                self.senders.push((username, sender));
                assert(self@ =~= before.push((username@, sender)));
                Ok(())
            },
        }
    }

    /// Unregister a user's voice packet sender
    pub fn unregister_sender(&mut self, username: &str) -> (r: Result<(), String>)
        requires
            names_distinct(old(self)@),
        ensures
            names_distinct(final(self)@),
            has_name(old(self)@, username@) ==> r is Ok && final(self)@ == old(self)@.remove(
                name_pos(old(self)@, username@),
            ),
            !has_name(old(self)@, username@) ==> (r matches Err(e) && e@ == not_found_text(
                username@,
            )) && final(self)@ == old(self)@,
    {
        let name = username.to_owned();
        match self.find(&name) {
            Some(j) => {
                let ghost before = self@;
                self.senders.remove(j);
                assert(self@ =~= before.remove(j as int));
                Ok(())
            },
            None => {
                proof {
                    reveal_strlit("No sender found for ");
                }
                Err(joined("No sender found for ", username))
            },
        }
    }

    /// The sender of a user, for a packet to be sent to.
    pub fn sender(&self, username: &str) -> (r: Result<&S, String>)
        requires
            names_distinct(self@),
        ensures
            has_name(self@, username@) ==> (r matches Ok(s) && *s == self@[name_pos(
                self@,
                username@,
            )].1),
            !has_name(self@, username@) ==> (r matches Err(e) && e@ == not_found_text(username@)),
    {
        let name = username.to_owned();
        match self.find(&name) {
            Some(j) => Ok(&self.senders[j].1),
            None => {
                proof {
                    reveal_strlit("No sender found for ");
                }
                Err(joined("No sender found for ", username))
            },
        }
    }

    /// The error of a packet that `username`'s channel did not take.
    pub fn send_failed(username: &str) -> (e: String)
        ensures
            e@ == send_failed_text(username@),
    {
        proof {
            reveal_strlit("Failed to send packet to ");
        }
        joined("Failed to send packet to ", username)
    }
}

} // verus!
