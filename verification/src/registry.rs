//! The service registry: an immutable mapping from service identifier to
//! backend base address, built once at startup and only read afterwards.

use vstd::prelude::*;

verus! {

/// One registered backend service: a short unique identifier (for example
/// `"student"`) and the fully qualified base address of the service.
pub struct ServiceEntry {
    pub identifier: String,
    pub base_address: String,
}

/// True when no two entries share an identifier.
pub open spec fn entry_ids_distinct(entries: Seq<ServiceEntry>) -> bool {
    forall|i: int, j: int|
        0 <= i < j < entries.len() ==> entries[i].identifier@ != entries[j].identifier@
}

/// The mapping from identifier to base address that a sequence of entries
/// describes.
pub open spec fn services_of(entries: Seq<ServiceEntry>) -> Map<Seq<char>, Seq<char>>
    decreases entries.len(),
{
    if entries.len() == 0 {
        Map::<Seq<char>, Seq<char>>::empty()
    } else {
        services_of(entries.drop_last()).insert(
            entries.last().identifier@,
            entries.last().base_address@,
        )
    }
}

/// The registry proper, together with the proxy's own externally reachable
/// address, which the resolver uses as the fallback base for identifiers
/// that no entry claims.
pub struct ServiceRegistry {
    entries: Vec<ServiceEntry>,
    proxy_address: String,
}

impl ServiceRegistry {
    /// Identifiers are unique within the registry.
    pub closed spec fn wf(&self) -> bool {
        entry_ids_distinct(self.entries@)
    }

    /// The mapping this registry represents.
    pub closed spec fn services(&self) -> Map<Seq<char>, Seq<char>> {
        services_of(self.entries@)
    }

    /// The proxy's own address.
    pub closed spec fn proxy(&self) -> Seq<char> {
        self.proxy_address@
    }

    /// An empty registry around the proxy's own address.
    pub fn new(proxy_address: String) -> (r: Self)
        ensures
            r.wf(),
            r.services() == Map::<Seq<char>, Seq<char>>::empty(),
            r.proxy() == proxy_address@,
    {
        ServiceRegistry { entries: Vec::new(), proxy_address }
    }

    /// Adds a service. A second entry for an identifier already present is
    /// refused, so the registry's identifiers stay unique.
    pub fn register(&mut self, entry: ServiceEntry) -> (added: bool)
        requires
            old(self).wf(),
        ensures
            final(self).wf(),
            final(self).proxy() == old(self).proxy(),
            added == !old(self).services().contains_key(entry.identifier@),
            added ==> final(self).services() == old(self).services().insert(
                entry.identifier@,
                entry.base_address@,
            ),
            !added ==> *final(self) == *old(self),
    {
        match self.lookup(&entry.identifier) {
            Some(_) => false,
            None => {
                proof {
                    assert forall|i: int|
                        0 <= i < self.entries@.len() implies self.entries@[i].identifier@
                        != entry.identifier@ by {
                        if self.entries@[i].identifier@ == entry.identifier@ {
                            lemma_services_of_found(self.entries@, i);
                        }
                    }
                }
                let ghost before = self.entries@;
                self.entries.push(entry);
                proof {
                    assert(self.entries@.drop_last() =~= before);
                    assert(self.entries@.last() == entry);
                }
                true
            },
        }
    }

    /// The base address registered for `identifier`, if any. The caller
    /// decides the fallback policy for identifiers that are absent.
    pub fn lookup(&self, identifier: &String) -> (r: Option<String>)
        requires
            self.wf(),
        ensures
            match r {
                Some(base) => self.services().contains_key(identifier@) && base@
                    == self.services()[identifier@],
                None => !self.services().contains_key(identifier@),
            },
    {
        let mut i: usize = 0;
        while i < self.entries.len()
            invariant
                i <= self.entries@.len(),
                entry_ids_distinct(self.entries@),
                forall|j: int| 0 <= j < i ==> self.entries@[j].identifier@ != identifier@,
            decreases self.entries@.len() - i,
        {
            let entry = &self.entries[i];
            if entry.identifier == *identifier {
                proof {
                    lemma_services_of_found(self.entries@, i as int);
                }
                return Some(entry.base_address.clone());
            }
            i += 1;
        }
        proof {
            lemma_services_of_absent(self.entries@, identifier@);
        }
        None
    }

    /// The proxy's own address, as configured at construction.
    pub fn proxy_address(&self) -> (r: &String)
        ensures
            r@ == self.proxy(),
    {
        &self.proxy_address
    }
}

/// With distinct identifiers, the mapping holds exactly what the entry at
/// position `i` says.
proof fn lemma_services_of_found(entries: Seq<ServiceEntry>, i: int)
    requires
        entry_ids_distinct(entries),
        0 <= i < entries.len(),
    ensures
        services_of(entries).contains_key(entries[i].identifier@),
        services_of(entries)[entries[i].identifier@] == entries[i].base_address@,
    decreases entries.len(),
{
    if i < entries.len() - 1 {
        let t = entries.drop_last();
        assert(entry_ids_distinct(t));
        lemma_services_of_found(t, i);
        assert(t[i] == entries[i]);
        assert(entries.last().identifier@ != entries[i].identifier@);
    }
}

/// An identifier no entry carries is absent from the mapping.
proof fn lemma_services_of_absent(entries: Seq<ServiceEntry>, identifier: Seq<char>)
    requires
        forall|i: int| 0 <= i < entries.len() ==> entries[i].identifier@ != identifier,
    ensures
        !services_of(entries).contains_key(identifier),
    decreases entries.len(),
{
    if entries.len() > 0 {
        let t = entries.drop_last();
        assert(forall|i: int| 0 <= i < t.len() ==> t[i] == entries[i]);
        lemma_services_of_absent(t, identifier);
    }
}

} // verus!
