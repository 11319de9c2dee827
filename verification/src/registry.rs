//! The handler table: handlers registered by name, globally or within a
//! namespace. A handler is known by the number that its owner gave it.

use vstd::prelude::*;
use vstd::utf8::{encode_utf8, encode_utf8_decode_utf8};

verus! {

/// Whether two texts are the same.
pub fn same_text(a: &str, b: &str) -> (r: bool)
    ensures
        r == (a@ == b@),
{
    let x = a.as_bytes();
    let y = b.as_bytes();
    proof {
        encode_utf8_decode_utf8(a@);
        encode_utf8_decode_utf8(b@);
    }
    if x.len() != y.len() {
        return false;
    }
    let mut i: usize = 0;
    while i < x.len()
        invariant
            i <= x@.len(),
            x@.len() == y@.len(),
            x@ == encode_utf8(a@),
            y@ == encode_utf8(b@),
            forall|k: int| 0 <= k < i ==> x@[k] == y@[k],
        decreases x@.len() - i,
    {
        if x[i] != y[i] {
            assert(x@[i as int] != y@[i as int]);
            return false;
        }
        i = i + 1;
    }
    assert(x@ =~= y@);
    true
}

/// One registration, as the contracts speak of it.
pub struct EntryView {
    pub namespace: Option<Seq<char>>,
    pub name: Seq<char>,
    pub handler: usize,
}

/// The handler that answers to `name` in `namespace`, or to `name` among the
/// global handlers where `namespace` is `None`. Where a name was registered
/// more than once in one place, the last registration counts.
pub open spec fn lookup_in(
    entries: Seq<EntryView>,
    namespace: Option<Seq<char>>,
    name: Seq<char>,
) -> Option<usize>
    decreases entries.len(),
{
    if entries.len() == 0 {
        None
    } else if entries.last().namespace == namespace && entries.last().name == name {
        Some(entries.last().handler)
    } else {
        lookup_in(entries.drop_last(), namespace, name)
    }
}

/// A handler that is registered in one place is not found in another: an
/// event with a namespace never reaches a global handler, and an event
/// without one never reaches a handler of a namespace.
pub proof fn lemma_lookup_stays_in_place(
    entries: Seq<EntryView>,
    namespace: Option<Seq<char>>,
    name: Seq<char>,
)
    ensures
        lookup_in(entries, namespace, name) matches Some(handler) ==> exists|i: int|
            0 <= i < entries.len() && (#[trigger] entries[i]).namespace == namespace
                && entries[i].name == name && entries[i].handler == handler,
        lookup_in(entries, namespace, name) is None ==> forall|i: int|
            0 <= i < entries.len() ==> !((#[trigger] entries[i]).namespace == namespace
                && entries[i].name == name),
    decreases entries.len(),
{
    if entries.len() > 0 {
        let head = entries.drop_last();
        let last = entries.last();
        lemma_lookup_stays_in_place(head, namespace, name);
        if last.namespace == namespace && last.name == name {
            assert(entries[entries.len() - 1] == last);
        } else {
            match lookup_in(head, namespace, name) {
                Some(handler) => {
                    let i = choose|i: int|
                        0 <= i < head.len() && (#[trigger] head[i]).namespace == namespace
                            && head[i].name == name && head[i].handler == handler;
                    assert(entries[i] == head[i]);
                },
                None => {
                    assert forall|i: int| 0 <= i < entries.len() implies !((
                    #[trigger] entries[i]).namespace == namespace && entries[i].name == name) by {
                        if i < head.len() {
                            assert(entries[i] == head[i]);
                        }
                    }
                },
            }
        }
    }
}

/// One registration.
struct Entry {
    namespace: Option<String>,
    name: String,
    handler: usize,
}

impl View for Entry {
    type V = EntryView;

    closed spec fn view(&self) -> EntryView {
        EntryView {
            namespace: match self.namespace {
                Some(text) => Some(text@),
                None => None,
            },
            name: self.name@,
            handler: self.handler,
        }
    }
}

/// The handlers of a connection, in the order in which they were registered.
pub struct HandlerRegistry {
    entries: Vec<Entry>,
}

impl View for HandlerRegistry {
    type V = Seq<EntryView>;

    closed spec fn view(&self) -> Seq<EntryView> {
        Seq::new(self.entries@.len(), |i: int| self.entries@[i]@)
    }
}

impl HandlerRegistry {
    /// A registry without handlers.
    pub fn new() -> (r: Self)
        ensures
            r@ == Seq::<EntryView>::empty(),
    {
        let r = Self { entries: Vec::new() };
        assert(r@ =~= Seq::<EntryView>::empty());
        r
    }

    /// The number of registrations.
    pub fn len(&self) -> (n: usize)
        ensures
            n == self@.len(),
    {
        self.entries.len()
    }

    /// Registers a global handler for the events called `name`.
    pub fn on(&mut self, name: String, handler: usize)
        ensures
            final(self)@ == old(self)@.push(
                EntryView { namespace: None, name: name@, handler },
            ),
    {
        self.entries.push(Entry { namespace: None, name, handler });
        assert(self@ =~= old(self)@.push(EntryView { namespace: None, name: name@, handler }));
    }

    /// Registers a handler for the events called `name` in `namespace`.
    pub fn on_namespaced(&mut self, namespace: String, name: String, handler: usize)
        ensures
            final(self)@ == old(self)@.push(
                EntryView { namespace: Some(namespace@), name: name@, handler },
            ),
    {
        self.entries.push(Entry { namespace: Some(namespace), name, handler });
        assert(self@ =~= old(self)@.push(
            EntryView { namespace: Some(namespace@), name: name@, handler },
        ));
    }

    /// The handler for an event with this namespace and name. With a
    /// namespace only the handlers of that namespace are consulted, without
    /// one only the global handlers.
    pub fn lookup(&self, namespace: Option<&str>, name: &str) -> (r: Option<usize>)
        ensures
            r == lookup_in(
                self@,
                match namespace {
                    Some(text) => Some(text@),
                    None => None,
                },
                name@,
            ),
    {
        let ghost wanted: Option<Seq<char>> = match namespace {
            Some(text) => Some(text@),
            None => None,
        };
        let mut i: usize = self.entries.len();
        assert(self@.take(i as int) =~= self@);
        while i > 0
            invariant
                i <= self.entries@.len(),
                wanted == (match namespace {
                    Some(text) => Some(text@),
                    None => None,
                }),
                lookup_in(self@, wanted, name@) == lookup_in(self@.take(i as int), wanted, name@),
            decreases i,
        {
            let entry = &self.entries[i - 1];
            let same_place = match (&entry.namespace, namespace) {
                (Some(mine), Some(theirs)) => same_text(mine.as_str(), theirs),
                (None, None) => true,
                _ => false,
            };
            proof {
                let upto = self@.take(i as int);
                assert(upto.last() == entry@);
                assert(upto.drop_last() =~= self@.take(i - 1));
            }
            if same_place && same_text(entry.name.as_str(), name) {
                return Some(entry.handler);
            }
            i = i - 1;
        }
        None
    }
}

} // verus!
