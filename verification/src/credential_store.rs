//! Local credential storage: an ordered list of entries that is kept in a JSON file.
//!
//! The list is held in memory here; reading and writing the file is up to the caller.

use vstd::prelude::*;
use vstd::string::*;
use crate::text;
use crate::types::{CredentialEntry, CredentialModel};

verus! {

/// Whether `entry` is the credential of `domain` in the profile `profile_id`.
pub open spec fn is_for(entry: CredentialModel, profile_id: Seq<char>, domain: Seq<char>) -> bool {
    entry.profile_id == profile_id && entry.domain == domain
}

/// The first credential of `domain` in the profile `profile_id`.
pub open spec fn lookup(
    entries: Seq<CredentialModel>,
    profile_id: Seq<char>,
    domain: Seq<char>,
) -> Option<CredentialModel>
    decreases entries.len(),
{
    if entries.len() == 0 {
        None
    } else if is_for(entries[0], profile_id, domain) {
        Some(entries[0])
    } else {
        lookup(entries.drop_first(), profile_id, domain)
    }
}

/// `entries` without the credentials of `domain` in the profile `profile_id`.
pub open spec fn without(
    entries: Seq<CredentialModel>,
    profile_id: Seq<char>,
    domain: Seq<char>,
) -> Seq<CredentialModel> {
    entries.filter(|entry: CredentialModel| !is_for(entry, profile_id, domain))
}

/// `entries` with `entry` at the end, in place of any other for the same domain and profile.
pub open spec fn with(entries: Seq<CredentialModel>, entry: CredentialModel) -> Seq<
    CredentialModel,
> {
    without(entries, entry.profile_id, entry.domain).push(entry)
}

/// The credentials of the profile `profile_id`, in order.
pub open spec fn of_profile(entries: Seq<CredentialModel>, profile_id: Seq<char>) -> Seq<
    CredentialModel,
> {
    entries.filter(|entry: CredentialModel| entry.profile_id == profile_id)
}

/// No two entries are for the same domain and profile.
pub open spec fn one_per_domain(entries: Seq<CredentialModel>) -> bool {
    forall|i: int, j: int|
        0 <= i < j < entries.len() ==> !is_for(
            #[trigger] entries[i],
            (#[trigger] entries[j]).profile_id,
            entries[j].domain,
        )
}

/// The credentials of all profiles.
#[derive(Debug)]
pub struct CredentialStore {
    entries: Vec<CredentialEntry>,
}

impl View for CredentialStore {
    type V = Seq<CredentialModel>;

    closed spec fn view(&self) -> Seq<CredentialModel> {
        self.entries.deep_view()
    }
}

/// Whether `entry` is the credential of `domain` in the profile `profile_id`.
fn entry_is_for(entry: &CredentialEntry, profile_id: &str, domain: &str) -> (r: bool)
    ensures
        r == is_for(entry@, profile_id@, domain@),
{
    text::str_eq(entry.profile_id.as_str(), profile_id) && text::str_eq(
        entry.domain.as_str(),
        domain,
    )
}

impl CredentialStore {
    /// A store that holds `entries`.
    pub fn from_entries(entries: Vec<CredentialEntry>) -> (r: Self)
        ensures
            r@ == entries.deep_view(),
    {
        CredentialStore { entries }
    }

    /// The entries of the store.
    pub fn entries(&self) -> (r: &Vec<CredentialEntry>)
        ensures
            r.deep_view() == self@,
    {
        &self.entries
    }

    /// The credential of `domain` in the profile `profile_id`: the first, where there are
    /// several.
    pub fn get(&self, profile_id: &str, domain: &str) -> (r: Option<CredentialEntry>)
        ensures
            r.deep_view() == lookup(self@, profile_id@, domain@),
    {
        let ghost all = self@;
        assert(all.skip(0) == all);
        for i in 0..self.entries.len()
            invariant
                all == self@,
                lookup(all, profile_id@, domain@) == lookup(
                    all.skip(i as int),
                    profile_id@,
                    domain@,
                ),
        {
            assert(all.skip(i as int)[0] == self.entries@[i as int]@);
            if entry_is_for(&self.entries[i], profile_id, domain) {
                return Some(self.entries[i].clone());
            }
            assert(all.skip(i as int).drop_first() == all.skip(i + 1));
        }
        None
    }

    /// Stores `entry`, in place of any other for the same domain and profile.
    pub fn set(&mut self, entry: CredentialEntry)
        ensures
            final(self)@ == with(old(self)@, entry@),
    {
        self.delete(entry.profile_id.as_str(), entry.domain.as_str());
        let ghost rest = self@;
        self.entries.push(entry);
        assert(self@ == rest.push(entry@));
    }

    /// Removes every credential of `domain` in the profile `profile_id`.
    pub fn delete(&mut self, profile_id: &str, domain: &str)
        ensures
            final(self)@ == without(old(self)@, profile_id@, domain@),
    {
        let ghost all = self@;
        let ghost keep = |entry: CredentialModel| !is_for(entry, profile_id@, domain@);
        let ghost mut seen: int = 0;
        let mut i: usize = 0;
        assert(all.take(0).filter(keep) =~= Seq::empty());
        assert(all.skip(0) =~= all);
        while i < self.entries.len()
            invariant
                0 <= seen <= all.len(),
                keep == (|entry: CredentialModel| !is_for(entry, profile_id@, domain@)),
                i == all.take(seen).filter(keep).len(),
                self@ == all.take(seen).filter(keep) + all.skip(seen),
            decreases all.len() - seen,
        {
            let ghost kept = all.take(seen).filter(keep);
            proof {
                assert(self@.len() == kept.len() + all.len() - seen);
                assert(self@[i as int] == all[seen]);
                assert(self@[i as int] == self.entries@[i as int]@);
                reveal(Seq::filter);
                assert(all.take(seen + 1).drop_last() == all.take(seen));
                assert(all.take(seen + 1).last() == all[seen]);
            }
            if entry_is_for(&self.entries[i], profile_id, domain) {
                let ghost before = self@;
                let _ = self.entries.remove(i);
                assert(self@ == before.remove(i as int));
                assert(before.remove(i as int) == kept + all.skip(seen + 1));
            } else {
                assert(kept + all.skip(seen) == kept.push(all[seen]) + all.skip(seen + 1));
                i = i + 1;
            }
            proof {
                seen = seen + 1;
            }
        }
        proof {
            assert(self@.len() == self.entries@.len());
            assert(all.skip(seen).len() == 0);
            assert(all.take(seen) == all);
        }
    }

    /// The credentials of the profile `profile_id`, in order.
    pub fn list(&self, profile_id: &str) -> (r: Vec<CredentialEntry>)
        ensures
            r.deep_view() == of_profile(self@, profile_id@),
    {
        let ghost all = self@;
        let ghost keep = |entry: CredentialModel| entry.profile_id == profile_id@;
        let mut found: Vec<CredentialEntry> = Vec::new();
        assert(found.deep_view() == all.take(0).filter(keep));
        for i in 0..self.entries.len()
            invariant
                all == self@,
                keep == (|entry: CredentialModel| entry.profile_id == profile_id@),
                found.deep_view() == all.take(i as int).filter(keep),
        {
            proof {
                reveal(Seq::filter);
                assert(all.take(i + 1).drop_last() == all.take(i as int));
                assert(all.take(i + 1).last() == self.entries@[i as int]@);
            }
            let ghost before = found.deep_view();
            if text::str_eq(self.entries[i].profile_id.as_str(), profile_id) {
                found.push(self.entries[i].clone());
                assert(found.deep_view() == before.push(self.entries@[i as int]@));
            }
        }
        assert(all.take(self.entries@.len() as int) == all);
        found
    }
}

/// The text of the credential file that is to be parsed as JSON: none where there is no
/// file (`contents` is `None`) or where it holds white space only; the store is then empty.
pub fn stored_document(contents: Option<String>) -> (r: Option<String>)
    ensures
        r == (match contents {
            Some(c) if text::trimmed(c@).len() > 0 => Some(c),
            _ => None,
        }),
{
    match contents {
        Some(c) => {
            if text::trim(c.as_str()).is_empty() {
                None
            } else {
                Some(c)
            }
        },
        None => None,
    }
}

/// A lookup in a list with one more entry at the end finds that entry only where the
/// list before it has none.
proof fn lemma_lookup_push(
    entries: Seq<CredentialModel>,
    entry: CredentialModel,
    profile_id: Seq<char>,
    domain: Seq<char>,
)
    ensures
        lookup(entries.push(entry), profile_id, domain) == (match lookup(
            entries,
            profile_id,
            domain,
        ) {
            Some(found) => Some(found),
            None => if is_for(entry, profile_id, domain) {
                Some(entry)
            } else {
                None
            },
        }),
    decreases entries.len(),
{
    let longer = entries.push(entry);
    if entries.len() == 0 {
        assert(longer.drop_first() == Seq::<CredentialModel>::empty());
        reveal_with_fuel(lookup, 2);
    } else {
        assert(longer[0] == entries[0]);
        assert(longer.drop_first() == entries.drop_first().push(entry));
        lemma_lookup_push(entries.drop_first(), entry, profile_id, domain);
    }
}

/// Once a credential is deleted, it is not found.
pub proof fn law_delete_forgets(
    entries: Seq<CredentialModel>,
    profile_id: Seq<char>,
    domain: Seq<char>,
)
    ensures
        lookup(without(entries, profile_id, domain), profile_id, domain) is None,
    decreases entries.len(),
{
    reveal(Seq::filter);
    if entries.len() > 0 {
        let front = entries.drop_last();
        law_delete_forgets(front, profile_id, domain);
        lemma_lookup_push(
            without(front, profile_id, domain),
            entries.last(),
            profile_id,
            domain,
        );
    }
}

/// Deleting a credential changes no other.
pub proof fn law_delete_keeps_others(
    entries: Seq<CredentialModel>,
    profile_id: Seq<char>,
    domain: Seq<char>,
    other_profile: Seq<char>,
    other_domain: Seq<char>,
)
    requires
        other_profile != profile_id || other_domain != domain,
    ensures
        lookup(without(entries, profile_id, domain), other_profile, other_domain) == lookup(
            entries,
            other_profile,
            other_domain,
        ),
    decreases entries.len(),
{
    reveal(Seq::filter);
    if entries.len() > 0 {
        let front = entries.drop_last();
        law_delete_keeps_others(front, profile_id, domain, other_profile, other_domain);
        lemma_lookup_push(
            without(front, profile_id, domain),
            entries.last(),
            other_profile,
            other_domain,
        );
        lemma_lookup_push(front, entries.last(), other_profile, other_domain);
        assert(front.push(entries.last()) == entries);
    }
}

/// What was stored last for a domain and profile is what is found.
pub proof fn law_set_then_get(entries: Seq<CredentialModel>, entry: CredentialModel)
    ensures
        lookup(with(entries, entry), entry.profile_id, entry.domain) == Some(entry),
{
    law_delete_forgets(entries, entry.profile_id, entry.domain);
    lemma_lookup_push(
        without(entries, entry.profile_id, entry.domain),
        entry,
        entry.profile_id,
        entry.domain,
    );
}

/// Storing a credential changes no other.
pub proof fn law_set_keeps_others(
    entries: Seq<CredentialModel>,
    entry: CredentialModel,
    other_profile: Seq<char>,
    other_domain: Seq<char>,
)
    requires
        other_profile != entry.profile_id || other_domain != entry.domain,
    ensures
        lookup(with(entries, entry), other_profile, other_domain) == lookup(
            entries,
            other_profile,
            other_domain,
        ),
{
    law_delete_keeps_others(
        entries,
        entry.profile_id,
        entry.domain,
        other_profile,
        other_domain,
    );
    lemma_lookup_push(
        without(entries, entry.profile_id, entry.domain),
        entry,
        other_profile,
        other_domain,
    );
}

/// Whatever `without` keeps is in `entries` and is for another domain or profile.
proof fn lemma_without_members(
    entries: Seq<CredentialModel>,
    profile_id: Seq<char>,
    domain: Seq<char>,
)
    ensures
        forall|i: int|
            0 <= i < without(entries, profile_id, domain).len() ==> !is_for(
                #[trigger] without(entries, profile_id, domain)[i],
                profile_id,
                domain,
            ) && entries.contains(without(entries, profile_id, domain)[i]),
    decreases entries.len(),
{
    reveal(Seq::filter);
    if entries.len() > 0 {
        let front = entries.drop_last();
        lemma_without_members(front, profile_id, domain);
        assert forall|e: CredentialModel| front.contains(e) implies entries.contains(e) by {
            let k = choose|k: int| 0 <= k < front.len() && front[k] == e;
            assert(entries[k] == e);
        }
        assert(entries.contains(entries.last()));
        let kept = without(front, profile_id, domain);
        let result = without(entries, profile_id, domain);
        assert forall|i: int| 0 <= i < result.len() implies !is_for(
            #[trigger] result[i],
            profile_id,
            domain,
        ) && entries.contains(result[i]) by {
            if i < kept.len() {
                assert(result[i] == kept[i]);
            }
        }
    }
}

/// Deleting keeps a list with one entry per domain and profile that way.
pub proof fn law_delete_keeps_one_per_domain(
    entries: Seq<CredentialModel>,
    profile_id: Seq<char>,
    domain: Seq<char>,
)
    requires
        one_per_domain(entries),
    ensures
        one_per_domain(without(entries, profile_id, domain)),
    decreases entries.len(),
{
    reveal(Seq::filter);
    if entries.len() > 0 {
        let front = entries.drop_last();
        let last = entries.last();
        law_delete_keeps_one_per_domain(front, profile_id, domain);
        lemma_without_members(front, profile_id, domain);
        let kept = without(front, profile_id, domain);
        assert forall|i: int| 0 <= i < kept.len() implies !is_for(
            #[trigger] kept[i],
            last.profile_id,
            last.domain,
        ) by {
            let k = choose|k: int| 0 <= k < front.len() && front[k] == kept[i];
            assert(entries[k] == kept[i]);
            assert(entries[entries.len() - 1] == last);
        }
    }
}

/// Storing keeps a list with one entry per domain and profile that way.
pub proof fn law_set_keeps_one_per_domain(entries: Seq<CredentialModel>, entry: CredentialModel)
    requires
        one_per_domain(entries),
    ensures
        one_per_domain(with(entries, entry)),
{
    law_delete_keeps_one_per_domain(entries, entry.profile_id, entry.domain);
    lemma_without_members(entries, entry.profile_id, entry.domain);
}

/// Of two credentials stored one after the other for the same domain and profile, the
/// first leaves no trace.
pub proof fn law_set_replaces(
    entries: Seq<CredentialModel>,
    first: CredentialModel,
    second: CredentialModel,
)
    requires
        is_for(first, second.profile_id, second.domain),
    ensures
        with(with(entries, first), second) == with(entries, second),
{
    let rest = without(entries, first.profile_id, first.domain);
    lemma_without_again(entries, first.profile_id, first.domain);
    reveal(Seq::filter);
    assert(rest.push(first).drop_last() == rest);
}

/// Deleting what was deleted changes nothing.
proof fn lemma_without_again(
    entries: Seq<CredentialModel>,
    profile_id: Seq<char>,
    domain: Seq<char>,
)
    ensures
        without(without(entries, profile_id, domain), profile_id, domain) == without(
            entries,
            profile_id,
            domain,
        ),
    decreases entries.len(),
{
    reveal(Seq::filter);
    if entries.len() > 0 {
        let front = entries.drop_last();
        lemma_without_again(front, profile_id, domain);
        let kept = without(front, profile_id, domain);
        assert(kept.push(entries.last()).drop_last() == kept);
    }
}

/// A profile's list holds exactly the entries of the store that belong to the profile.
pub proof fn law_list_is_complete(
    entries: Seq<CredentialModel>,
    profile_id: Seq<char>,
    entry: CredentialModel,
)
    ensures
        of_profile(entries, profile_id).contains(entry) <==> entries.contains(entry)
            && entry.profile_id == profile_id,
    decreases entries.len(),
{
    reveal(Seq::filter);
    if entries.len() > 0 {
        let front = entries.drop_last();
        let listed = of_profile(front, profile_id);
        law_list_is_complete(front, profile_id, entry);
        assert(entries == front.push(entries.last()));
        assert(front.push(entries.last()).contains(entry) <==> front.contains(entry) || entry
            == entries.last()) by {
            lemma_push_contains(front, entries.last(), entry);
        }
        lemma_push_contains(listed, entries.last(), entry);
    }
}

/// A list with one more entry at the end holds that entry and those before it.
proof fn lemma_push_contains(
    entries: Seq<CredentialModel>,
    last: CredentialModel,
    entry: CredentialModel,
)
    ensures
        entries.push(last).contains(entry) <==> entries.contains(entry) || entry == last,
{
    let longer = entries.push(last);
    if entries.contains(entry) {
        let k = choose|k: int| 0 <= k < entries.len() && entries[k] == entry;
        assert(longer[k] == entry);
    }
    assert(longer[entries.len() as int] == last);
    if longer.contains(entry) {
        let k = choose|k: int| 0 <= k < longer.len() && longer[k] == entry;
        assert(k < entries.len() ==> entries[k] == entry);
    }
}

/// What is stored under one profile does not show in the list of another.
pub proof fn law_profiles_are_separate(
    entries: Seq<CredentialModel>,
    entry: CredentialModel,
    other_profile: Seq<char>,
)
    requires
        other_profile != entry.profile_id,
    ensures
        of_profile(with(entries, entry), other_profile) == of_profile(entries, other_profile),
{
    reveal(Seq::filter);
    let rest = without(entries, entry.profile_id, entry.domain);
    assert(rest.push(entry).drop_last() == rest);
    lemma_without_keeps_profile(entries, entry.profile_id, entry.domain, other_profile);
}

/// Deleting under one profile does not change the list of another.
proof fn lemma_without_keeps_profile(
    entries: Seq<CredentialModel>,
    profile_id: Seq<char>,
    domain: Seq<char>,
    other_profile: Seq<char>,
)
    requires
        other_profile != profile_id,
    ensures
        of_profile(without(entries, profile_id, domain), other_profile) == of_profile(
            entries,
            other_profile,
        ),
    decreases entries.len(),
{
    reveal(Seq::filter);
    if entries.len() > 0 {
        let front = entries.drop_last();
        lemma_without_keeps_profile(front, profile_id, domain, other_profile);
        let kept = without(front, profile_id, domain);
        assert(kept.push(entries.last()).drop_last() == kept);
    }
}

/// A lookup gives the first entry with exactly that profile and that domain, and nothing
/// only where no entry has them.
pub proof fn law_lookup_finds_the_first(
    entries: Seq<CredentialModel>,
    profile_id: Seq<char>,
    domain: Seq<char>,
)
    ensures
        match lookup(entries, profile_id, domain) {
            Some(found) => exists|i: int|
                {
                    &&& 0 <= i < entries.len()
                    &&& #[trigger] entries[i] == found
                    &&& found.profile_id == profile_id
                    &&& found.domain == domain
                    &&& forall|j: int|
                        0 <= j < i ==> (#[trigger] entries[j]).profile_id != profile_id
                            || entries[j].domain != domain
                },
            None => forall|j: int|
                0 <= j < entries.len() ==> (#[trigger] entries[j]).profile_id != profile_id
                    || entries[j].domain != domain,
        },
    decreases entries.len(),
{
    if entries.len() > 0 {
        if is_for(entries[0], profile_id, domain) {
            assert(entries[0].profile_id == profile_id);
        } else {
            let rest = entries.drop_first();
            law_lookup_finds_the_first(rest, profile_id, domain);
            assert forall|j: int| 0 < j < entries.len() implies #[trigger] entries[j] == rest[j
                - 1] by {}
            if let Some(found) = lookup(rest, profile_id, domain) {
                let i = choose|i: int|
                    {
                        &&& 0 <= i < rest.len()
                        &&& #[trigger] rest[i] == found
                        &&& found.profile_id == profile_id
                        &&& found.domain == domain
                        &&& forall|j: int|
                            0 <= j < i ==> (#[trigger] rest[j]).profile_id != profile_id
                                || rest[j].domain != domain
                    };
                assert(entries[i + 1] == found);
            }
        }
    }
}

/// Deleting takes out exactly the entries with that profile and that domain; all others
/// stay, in their order.
pub proof fn law_delete_takes_out_one_by_one(
    a: Seq<CredentialModel>,
    b: Seq<CredentialModel>,
    entry: CredentialModel,
    profile_id: Seq<char>,
    domain: Seq<char>,
)
    ensures
        without(Seq::empty(), profile_id, domain) == Seq::<CredentialModel>::empty(),
        without(a + b, profile_id, domain) == without(a, profile_id, domain) + without(
            b,
            profile_id,
            domain,
        ),
        without(seq![entry], profile_id, domain) == (if entry.profile_id == profile_id
            && entry.domain == domain {
            Seq::empty()
        } else {
            seq![entry]
        }),
{
    Seq::filter_distributes_over_add(
        a,
        b,
        |e: CredentialModel| !is_for(e, profile_id, domain),
    );
    reveal(Seq::filter);
    reveal_with_fuel(Seq::filter, 2);
    assert(seq![entry].drop_last() == Seq::<CredentialModel>::empty());
}

/// Storing puts the entry at the end; before it stand the entries that deleting leaves.
pub proof fn law_set_appends(entries: Seq<CredentialModel>, entry: CredentialModel)
    ensures
        with(entries, entry).len() > 0,
        with(entries, entry).last() == entry,
        with(entries, entry).drop_last() == without(entries, entry.profile_id, entry.domain),
{
    assert(with(entries, entry).drop_last() == without(entries, entry.profile_id, entry.domain));
}

/// A list shows the entries of the profile one by one, each as often as it is stored, and in
/// the order in which they are stored.
pub proof fn law_list_shows_one_by_one(
    a: Seq<CredentialModel>,
    b: Seq<CredentialModel>,
    entry: CredentialModel,
    profile_id: Seq<char>,
)
    ensures
        of_profile(Seq::empty(), profile_id) == Seq::<CredentialModel>::empty(),
        of_profile(a + b, profile_id) == of_profile(a, profile_id) + of_profile(b, profile_id),
        of_profile(seq![entry], profile_id) == (if entry.profile_id == profile_id {
            seq![entry]
        } else {
            Seq::empty()
        }),
{
    Seq::filter_distributes_over_add(a, b, |e: CredentialModel| e.profile_id == profile_id);
    reveal(Seq::filter);
    reveal_with_fuel(Seq::filter, 2);
    assert(seq![entry].drop_last() == Seq::<CredentialModel>::empty());
}

} // verus!
