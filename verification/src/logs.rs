//! The log of each service: its latest entries, under the name of the service.

use vstd::prelude::*;
use crate::text::same_text;

verus! {

/// The number of entries that the log of one service keeps: the latest ones.
pub const LOG_LIMIT: usize = 2000;

/// The last `limit` of `entries`, or all of them where there are no more.
pub open spec fn latest<T>(entries: Seq<T>, limit: nat) -> Seq<T> {
    if entries.len() > limit {
        entries.skip(entries.len() - limit)
    } else {
        entries
    }
}

/// The entries that `book` holds for `service`: none where it knows no such service.
pub open spec fn logs_of<T>(book: Map<Seq<char>, Seq<T>>, service: Seq<char>) -> Seq<T> {
    if book.contains_key(service) {
        book[service]
    } else {
        Seq::empty()
    }
}

/// Drops the oldest entries of a log until no more than `limit` are left.
pub fn keep_latest<T>(entries: &mut Vec<T>, limit: usize)
    ensures
        final(entries)@ == latest(old(entries)@, limit as nat),
{
    let ghost before = entries@;
    let ghost mut dropped: int = 0;
    proof {
        assert(before.skip(0) =~= before);
    }
    while entries.len() > limit
        invariant
            before == old(entries)@,
            0 <= dropped,
            dropped + entries.len() == before.len(),
            entries@ == before.skip(dropped),
            dropped == 0 || entries.len() >= limit,
        decreases entries.len(),
    {
        entries.remove(0);
        proof {
            dropped = dropped + 1;
            assert(entries@ =~= before.skip(dropped));
        }
    }
}

/// The log of one service.
struct ServiceLog<T> {
    name: String,
    entries: Vec<T>,
}

/// The logs of all services. Each service has one log, which keeps its latest
/// `LOG_LIMIT` entries.
pub struct LogBook<T> {
    services: Vec<ServiceLog<T>>,
}

/// No two logs are of the same service.
spec fn names_distinct<T>(services: Seq<ServiceLog<T>>) -> bool {
    forall|i: int, j: int|
        0 <= i < j < services.len() ==> (#[trigger] services[i]).name@ != (
        #[trigger] services[j]).name@
}

/// Whether one of `services` is the log of `name`.
spec fn has_log<T>(services: Seq<ServiceLog<T>>, name: Seq<char>) -> bool {
    exists|i: int| 0 <= i < services.len() && (#[trigger] services[i]).name@ == name
}

/// The index of the log of `name`.
spec fn index_of_log<T>(services: Seq<ServiceLog<T>>, name: Seq<char>) -> int {
    choose|i: int| 0 <= i < services.len() && (#[trigger] services[i]).name@ == name
}

/// The entries of each service, by the name of the service.
spec fn book_of<T>(services: Seq<ServiceLog<T>>) -> Map<Seq<char>, Seq<T>> {
    Map::new(
        |name: Seq<char>| has_log(services, name),
        |name: Seq<char>| services[index_of_log(services, name)].entries@,
    )
}

/// The log at `index` is the one that the book holds under its name.
proof fn lemma_book_at<T>(services: Seq<ServiceLog<T>>, index: int)
    requires
        names_distinct(services),
        0 <= index < services.len(),
    ensures
        book_of(services).contains_key(services[index].name@),
        book_of(services)[services[index].name@] == services[index].entries@,
{
    let name = services[index].name@;
    assert(has_log(services, name));
    let found = index_of_log(services, name);
    assert(found == index) by {
        if found < index {
            assert(services[found].name@ != services[index].name@);
        }
        if index < found {
            assert(services[index].name@ != services[found].name@);
        }
    }
}

/// Where one log gets new entries and all else stays, the book changes at the name
/// of that log only.
proof fn lemma_log_replaced<T>(
    before: Seq<ServiceLog<T>>,
    after: Seq<ServiceLog<T>>,
    index: int,
)
    requires
        names_distinct(before),
        0 <= index < before.len(),
        after.len() == before.len(),
        forall|k: int| 0 <= k < after.len() ==> (#[trigger] after[k]).name@ == before[k].name@,
        forall|k: int|
            0 <= k < after.len() && k != index ==> (#[trigger] after[k]).entries@
                == before[k].entries@,
    ensures
        names_distinct(after),
        book_of(after) == book_of(before).insert(before[index].name@, after[index].entries@),
{
    assert(names_distinct(after)) by {
        assert forall|i: int, j: int| 0 <= i < j < after.len() implies (#[trigger] after[i]).name@
            != (#[trigger] after[j]).name@ by {
            assert(before[i].name@ != before[j].name@);
        }
    }
    let updated = book_of(before).insert(before[index].name@, after[index].entries@);
    assert forall|name: Seq<char>| book_of(after).contains_key(name) <==> updated.contains_key(
        name,
    ) by {
        if has_log(after, name) {
            let k = index_of_log(after, name);
            assert(before[k].name@ == name);
        }
        if has_log(before, name) {
            let k = index_of_log(before, name);
            assert(after[k].name@ == name);
        }
        if name == before[index].name@ {
            assert(after[index].name@ == name);
        }
    }
    assert forall|name: Seq<char>| book_of(after).contains_key(name) implies book_of(after)[name]
        == updated[name] by {
        let k = index_of_log(after, name);
        lemma_book_at(after, k);
        lemma_book_at(before, k);
    }
    assert(book_of(after) =~= updated);
}

/// Where a log of a new name is added at the end, the book gains that name.
proof fn lemma_log_added<T>(before: Seq<ServiceLog<T>>, after: Seq<ServiceLog<T>>)
    requires
        names_distinct(before),
        after.len() == before.len() + 1,
        forall|k: int| 0 <= k < before.len() ==> (#[trigger] after[k]) == before[k],
        !has_log(before, after.last().name@),
    ensures
        names_distinct(after),
        book_of(after) == book_of(before).insert(after.last().name@, after.last().entries@),
{
    let last = before.len() as int;
    let added = after[last].name@;
    assert(names_distinct(after)) by {
        assert forall|i: int, j: int| 0 <= i < j < after.len() implies (#[trigger] after[i]).name@
            != (#[trigger] after[j]).name@ by {
            if j == last {
                assert(before[i].name@ != added);
            } else {
                assert(before[i].name@ != before[j].name@);
            }
        }
    }
    let updated = book_of(before).insert(added, after[last].entries@);
    assert forall|name: Seq<char>| book_of(after).contains_key(name) <==> updated.contains_key(
        name,
    ) by {
        if has_log(after, name) {
            let k = index_of_log(after, name);
            if k < last {
                assert(before[k].name@ == name);
            }
        }
        if has_log(before, name) {
            let k = index_of_log(before, name);
            assert(after[k].name@ == name);
        }
        if name == added {
            assert(after[last].name@ == name);
        }
    }
    assert forall|name: Seq<char>| book_of(after).contains_key(name) implies book_of(after)[name]
        == updated[name] by {
        let k = index_of_log(after, name);
        lemma_book_at(after, k);
        if k < last {
            lemma_book_at(before, k);
        }
    }
    assert(book_of(after) =~= updated);
}

/// Where one log is taken out, the book loses the name of that log.
proof fn lemma_log_removed<T>(before: Seq<ServiceLog<T>>, index: int)
    requires
        names_distinct(before),
        0 <= index < before.len(),
    ensures
        names_distinct(before.remove(index)),
        book_of(before.remove(index)) == book_of(before).remove(before[index].name@),
{
    let after = before.remove(index);
    let removed = before[index].name@;
    assert forall|k: int| 0 <= k < after.len() implies (#[trigger] after[k]) == before[if k
        < index {
        k
    } else {
        k + 1
    }] by {}
    assert(names_distinct(after)) by {
        assert forall|i: int, j: int| 0 <= i < j < after.len() implies (#[trigger] after[i]).name@
            != (#[trigger] after[j]).name@ by {
            let a = if i < index {
                i
            } else {
                i + 1
            };
            let b = if j < index {
                j
            } else {
                j + 1
            };
            assert(before[a].name@ != before[b].name@);
        }
    }
    let updated = book_of(before).remove(removed);
    assert forall|name: Seq<char>| book_of(after).contains_key(name) <==> updated.contains_key(
        name,
    ) by {
        if has_log(after, name) {
            let k = index_of_log(after, name);
            let a = if k < index {
                k
            } else {
                k + 1
            };
            assert(before[a].name@ == name);
            if a < index {
                assert(before[a].name@ != before[index].name@);
            } else {
                assert(before[index].name@ != before[a].name@);
            }
        }
        if has_log(before, name) && name != removed {
            let k = index_of_log(before, name);
            let a = if k < index {
                k
            } else {
                k - 1
            };
            assert(after[a].name@ == name);
        }
    }
    assert forall|name: Seq<char>| book_of(after).contains_key(name) implies book_of(after)[name]
        == updated[name] by {
        let k = index_of_log(after, name);
        let a = if k < index {
            k
        } else {
            k + 1
        };
        lemma_book_at(after, k);
        lemma_book_at(before, a);
    }
    assert(book_of(after) =~= updated);
}

impl<T> View for LogBook<T> {
    type V = Map<Seq<char>, Seq<T>>;

    closed spec fn view(&self) -> Map<Seq<char>, Seq<T>> {
        book_of(self.services@)
    }
}

impl<T> LogBook<T> {
    #[verifier::type_invariant]
    spec fn well_formed(self) -> bool {
        names_distinct(self.services@)
    }

    /// A book without any log.
    pub fn new() -> (book: Self)
        ensures
            book@ == Map::<Seq<char>, Seq<T>>::empty(),
    {
        let book = LogBook { services: Vec::new() };
        proof {
            assert(book@ =~= Map::<Seq<char>, Seq<T>>::empty());
        }
        book
    }

    /// The index of the log of `service` among `services`.
    fn find(services: &Vec<ServiceLog<T>>, service: &str) -> (found: Option<usize>)
        ensures
            match found {
                Some(index) => index < services.len() && services@[index as int].name@
                    == service@,
                None => !has_log(services@, service@),
            },
    {
        let mut i: usize = 0;
        while i < services.len()
            invariant
                i <= services.len(),
                forall|j: int| 0 <= j < i ==> (#[trigger] services@[j]).name@ != service@,
            decreases services.len() - i,
        {
            if same_text(services[i].name.as_str(), service) {
                return Some(i);
            }
            i += 1;
        }
        None
    }

    /// Adds `entry` to the log of `service`, which is begun where there was none, and
    /// drops the oldest entries of that log beyond the limit. The other logs stay as
    /// they are.
    pub fn add_log(&mut self, service: &str, entry: T)
        ensures
            final(self)@ == old(self)@.insert(
                service@,
                latest(logs_of(old(self)@, service@).push(entry), LOG_LIMIT as nat),
            ),
    {
        proof {
            use_type_invariant(&*self);
        }
        let ghost before = self.services@;
        let mut services: Vec<ServiceLog<T>> = Vec::new();
        std::mem::swap(&mut services, &mut self.services);
        match Self::find(&services, service) {
            Some(index) => {
                let mut log = services.remove(index);
                log.entries.push(entry);
                keep_latest(&mut log.entries, LOG_LIMIT);
                services.insert(index, log);
                proof {
                    lemma_book_at(before, index as int);
                    lemma_log_replaced(before, services@, index as int);
                }
            },
            None => {
                let mut entries: Vec<T> = Vec::new();
                entries.push(entry);
                keep_latest(&mut entries, LOG_LIMIT);
                services.push(ServiceLog { name: service.to_owned(), entries });
                proof {
                    assert(Seq::<T>::empty().push(entry) =~= seq![entry]);
                    lemma_log_added(before, services@);
                }
            },
        }
        self.services = services;
    }

    /// The log of `service`, or `None` where the book holds none for it.
    pub fn get_logs(&self, service: &str) -> (log: Option<&Vec<T>>)
        ensures
            match log {
                Some(entries) => self@.contains_key(service@) && entries@ == self@[service@],
                None => !self@.contains_key(service@),
            },
    {
        proof {
            use_type_invariant(self);
        }
        match Self::find(&self.services, service) {
            Some(index) => {
                proof {
                    lemma_book_at(self.services@, index as int);
                }
                Some(&self.services[index].entries)
            },
            None => None,
        }
    }

    /// Removes the log of `service`. The other logs stay as they are.
    pub fn clear_logs(&mut self, service: &str)
        ensures
            final(self)@ == old(self)@.remove(service@),
    {
        proof {
            use_type_invariant(&*self);
        }
        let ghost before = self.services@;
        let mut services: Vec<ServiceLog<T>> = Vec::new();
        std::mem::swap(&mut services, &mut self.services);
        match Self::find(&services, service) {
            Some(index) => {
                services.remove(index);
                proof {
                    lemma_log_removed(before, index as int);
                }
            },
            None => {
                proof {
                    assert(book_of(before).remove(service@) =~= book_of(before));
                }
            },
        }
        self.services = services;
    }
}

} // verus!
