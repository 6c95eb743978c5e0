//! What a viewer asks to be sent.
//!
//! A subscription names the types of event that a viewer of the event-stream
//! endpoint wants. It is written as a comma-separated list of event names,
//! `init`, `output`, `resize` and `snapshot`. A list that holds anything else,
//! an empty name included, is not a subscription: one bad name spoils the
//! list. The endpoint answers a spoilt or missing list with the empty
//! subscription, which forwards nothing, and never turns the viewer away.

use vstd::prelude::*;
use vstd::string::StringSliceAdditionalSpecFns;
use crate::session::EventKind;

pub mod http;

verus! {

/// The byte that separates the names of a list.
pub const COMMA: u8 = 44;

/// A filter over the types of event.
#[derive(Clone, Copy, Debug, PartialEq, Eq, Structural)]
pub struct Subscription {
    pub init: bool,
    pub output: bool,
    pub resize: bool,
    pub snapshot: bool,
}

/// Why a list of names is no subscription.
#[derive(Clone, Copy, Debug, PartialEq, Eq, Structural)]
pub struct InvalidEventName {
    /// Which name of the list, counting from zero, is the first that names no
    /// type of event.
    pub index: usize,
}

/// The type of event that `name` names, if it names one.
pub open spec fn kind_of(name: Seq<u8>) -> Option<EventKind> {
    if name == seq![105u8, 110u8, 105u8, 116u8] {
        Some(EventKind::Init)
    } else if name == seq![111u8, 117u8, 116u8, 112u8, 117u8, 116u8] {
        Some(EventKind::Output)
    } else if name == seq![114u8, 101u8, 115u8, 105u8, 122u8, 101u8] {
        Some(EventKind::Resize)
    } else if name == seq![115u8, 110u8, 97u8, 112u8, 115u8, 104u8, 111u8, 116u8] {
        Some(EventKind::Snapshot)
    } else {
        None
    }
}

/// The length of the name that `s` starts with: the bytes before the first
/// comma, or all of them.
pub open spec fn name_len(s: Seq<u8>) -> int
    decreases s.len(),
{
    if s.len() == 0 || s[0] == COMMA {
        0
    } else {
        1 + name_len(s.skip(1))
    }
}

/// The names of a list: what stands between its commas. A list without a
/// comma holds one name, which may be empty.
pub open spec fn names(s: Seq<u8>) -> Seq<Seq<u8>>
    decreases s.len(),
{
    let n = name_len(s);
    if n < 0 || n >= s.len() {
        seq![s]
    } else {
        seq![s.take(n)] + names(s.skip(n + 1))
    }
}

/// Every name of the list names a type of event.
pub open spec fn all_known(list: Seq<Seq<u8>>) -> bool {
    forall|i: int| 0 <= i < list.len() ==> (#[trigger] kind_of(list[i])) is Some
}

/// The subscription to every type that a list names.
pub open spec fn subscription_of(list: Seq<Seq<u8>>) -> Subscription
    decreases list.len(),
{
    if list.len() == 0 {
        Subscription::empty()
    } else {
        match kind_of(list.last()) {
            Some(kind) => subscription_of(list.drop_last()).with(kind),
            None => subscription_of(list.drop_last()),
        }
    }
}

impl Subscription {
    /// The subscription to nothing.
    pub open spec fn empty() -> Subscription {
        Subscription { init: false, output: false, resize: false, snapshot: false }
    }

    /// Whether events of this type are forwarded.
    pub open spec fn admits(self, kind: EventKind) -> bool {
        match kind {
            EventKind::Init => self.init,
            EventKind::Output => self.output,
            EventKind::Resize => self.resize,
            EventKind::Snapshot => self.snapshot,
        }
    }

    /// This subscription, with events of type `kind` forwarded too.
    pub open spec fn with(self, kind: EventKind) -> Subscription {
        match kind {
            EventKind::Init => Subscription { init: true, ..self },
            EventKind::Output => Subscription { output: true, ..self },
            EventKind::Resize => Subscription { resize: true, ..self },
            EventKind::Snapshot => Subscription { snapshot: true, ..self },
        }
    }

    /// The subscription to nothing.
    pub fn none() -> (sub: Subscription)
        ensures
            sub == Subscription::empty(),
    {
        Subscription { init: false, output: false, resize: false, snapshot: false }
    }

    /// Whether events of this type are forwarded.
    pub fn subscribes(&self, kind: EventKind) -> (yes: bool)
        ensures
            yes == self.admits(kind),
    {
        match kind {
            EventKind::Init => self.init,
            EventKind::Output => self.output,
            EventKind::Resize => self.resize,
            EventKind::Snapshot => self.snapshot,
        }
    }

    /// This subscription, with events of type `kind` forwarded too.
    pub fn including(self, kind: EventKind) -> (sub: Subscription)
        ensures
            sub == self.with(kind),
    {
        match kind {
            EventKind::Init => Subscription { init: true, ..self },
            EventKind::Output => Subscription { output: true, ..self },
            EventKind::Resize => Subscription { resize: true, ..self },
            EventKind::Snapshot => Subscription { snapshot: true, ..self },
        }
    }

    /// Reads a subscription from the bytes of a comma-separated list.
    pub fn parse_bytes(s: &[u8]) -> (r: Result<Subscription, InvalidEventName>)
        ensures
            match r {
                Ok(sub) => all_known(names(s@)) && sub == subscription_of(names(s@)),
                Err(e) => {
                    &&& e.index < names(s@).len()
                    &&& kind_of(names(s@)[e.index as int]) is None
                    &&& all_known(names(s@).take(e.index as int))
                },
            },
    {
        let len = s.len();
        let ghost list = names(s@);
        let mut sub = Subscription::none();
        let mut start: usize = 0;
        let mut k: usize = 0;
        proof {
            assert(s@.skip(0) =~= s@);
            assert(list.skip(0) =~= list);
            assert(list.take(0) =~= Seq::<Seq<u8>>::empty());
        }
        loop
            invariant
                len == s@.len(),
                list == names(s@),
                k <= start <= len,
                list.skip(k as int) == names(s@.skip(start as int)),
                k < list.len(),
                all_known(list.take(k as int)),
                sub == subscription_of(list.take(k as int)),
            decreases len - start,
        {
            let ghost rest = s@.skip(start as int);
            let mut end: usize = start;
            while end < len && s[end] != COMMA
                invariant
                    start <= end <= len == s@.len(),
                    rest == s@.skip(start as int),
                    forall|j: int| 0 <= j < end - start ==> rest[j] != COMMA,
                decreases len - end,
            {
                end = end + 1;
            }
            let ghost n = end - start;
            proof {
                lemma_name_len_is(rest, n);
                assert(s@.subrange(start as int, end as int) =~= rest.take(n));
                assert(names(rest)[0] == rest.take(n)) by {
                    if n >= rest.len() {
                        assert(rest.take(n) =~= rest);
                    }
                }
                assert(list[k as int] == list.skip(k as int)[0]);
                assert(list.take(k + 1).drop_last() =~= list.take(k as int));
                assert(list.take(k + 1).last() == list[k as int]);
            }
            let name = vstd::slice::slice_subrange(s, start, end);
            match event_kind(name) {
                None => {
                    return Err(InvalidEventName { index: k });
                },
                Some(kind) => {
                    sub = sub.including(kind);
                },
            }
            proof {
                assert forall|i: int| 0 <= i < list.take(k + 1).len() implies (#[trigger] kind_of(
                    list.take(k + 1)[i],
                )) is Some by {
                    if i < k {
                        assert(list.take(k + 1)[i] == list.take(k as int)[i]);
                    }
                }
            }
            if end == len {
                proof {
                    assert(names(rest).len() == 1);
                    assert(list.len() == k + 1);
                    assert(list.take(k + 1) =~= list);
                }
                return Ok(sub);
            }
            proof {
                assert(rest.skip(n + 1) =~= s@.skip(end + 1));
                assert(names(rest).skip(1) =~= names(rest.skip(n + 1)));
                assert(list.skip(k + 1) =~= list.skip(k as int).skip(1));
                assert(names(s@.skip(end + 1)).len() >= 1);
            }
            start = end + 1;
            k = k + 1;
        }
    }

    /// Reads a subscription from a comma-separated list of event names.
    pub fn parse(s: &str) -> (r: Result<Subscription, InvalidEventName>)
        ensures
            match r {
                Ok(sub) => all_known(names(s.spec_bytes())) && sub == subscription_of(
                    names(s.spec_bytes()),
                ),
                Err(e) => {
                    &&& e.index < names(s.spec_bytes()).len()
                    &&& kind_of(names(s.spec_bytes())[e.index as int]) is None
                    &&& all_known(names(s.spec_bytes()).take(e.index as int))
                },
            },
    {
        Subscription::parse_bytes(s.as_bytes())
    }

    /// The subscription of a viewer who connected with the parameter
    /// `param`: what the list names, or nothing where the list is missing or
    /// spoilt.
    pub fn from_param(param: Option<&str>) -> (sub: Subscription)
        ensures
            sub == match param {
                Some(s) if all_known(names(s.spec_bytes())) => subscription_of(
                    names(s.spec_bytes()),
                ),
                _ => Subscription::empty(),
            },
    {
        match param {
            Some(s) => match Subscription::parse(s) {
                Ok(sub) => sub,
                Err(_) => Subscription::none(),
            },
            None => Subscription::none(),
        }
    }
}

impl Default for Subscription {
    fn default() -> (sub: Subscription)
        ensures
            sub == Subscription::empty(),
    {
        Subscription::none()
    }
}

impl core::str::FromStr for Subscription {
    type Err = InvalidEventName;

    fn from_str(s: &str) -> (r: Result<Subscription, InvalidEventName>)
        ensures
            match r {
                Ok(sub) => all_known(names(s.spec_bytes())) && sub == subscription_of(
                    names(s.spec_bytes()),
                ),
                Err(e) => {
                    &&& e.index < names(s.spec_bytes()).len()
                    &&& kind_of(names(s.spec_bytes())[e.index as int]) is None
                    &&& all_known(names(s.spec_bytes()).take(e.index as int))
                },
            },
    {
        Subscription::parse(s)
    }
}

/// The type of event that `name` names, if it names one.
pub fn event_kind(name: &[u8]) -> (kind: Option<EventKind>)
    ensures
        kind == kind_of(name@),
{
    let n = name.len();
    if n == 4 && name[0] == 105 && name[1] == 110 && name[2] == 105 && name[3] == 116 {
        assert(name@ =~= seq![105u8, 110u8, 105u8, 116u8]);
        Some(EventKind::Init)
    } else if n == 6 && name[0] == 111 && name[1] == 117 && name[2] == 116 && name[3] == 112
        && name[4] == 117 && name[5] == 116 {
        assert(name@ =~= seq![111u8, 117u8, 116u8, 112u8, 117u8, 116u8]);
        Some(EventKind::Output)
    } else if n == 6 && name[0] == 114 && name[1] == 101 && name[2] == 115 && name[3] == 105
        && name[4] == 122 && name[5] == 101 {
        assert(name@ =~= seq![114u8, 101u8, 115u8, 105u8, 122u8, 101u8]);
        Some(EventKind::Resize)
    } else if n == 8 && name[0] == 115 && name[1] == 110 && name[2] == 97 && name[3] == 112
        && name[4] == 115 && name[5] == 104 && name[6] == 111 && name[7] == 116 {
        assert(name@ =~= seq![115u8, 110u8, 97u8, 112u8, 115u8, 104u8, 111u8, 116u8]);
        Some(EventKind::Snapshot)
    } else {
        proof {
            let a = seq![105u8, 110u8, 105u8, 116u8];
            let b = seq![111u8, 117u8, 116u8, 112u8, 117u8, 116u8];
            let c = seq![114u8, 101u8, 115u8, 105u8, 122u8, 101u8];
            let d = seq![115u8, 110u8, 97u8, 112u8, 115u8, 104u8, 111u8, 116u8];
            if name@ == a {
                assert(name@[0] == a[0] && name@[1] == a[1] && name@[2] == a[2] && name@[3]
                    == a[3]);
            }
            if name@ == b {
                assert(name@[0] == b[0] && name@[1] == b[1] && name@[2] == b[2] && name@[3] == b[3]
                    && name@[4] == b[4] && name@[5] == b[5]);
            }
            if name@ == c {
                assert(name@[0] == c[0] && name@[1] == c[1] && name@[2] == c[2] && name@[3] == c[3]
                    && name@[4] == c[4] && name@[5] == c[5]);
            }
            if name@ == d {
                assert(name@[0] == d[0] && name@[1] == d[1] && name@[2] == d[2] && name@[3] == d[3]
                    && name@[4] == d[4] && name@[5] == d[5] && name@[6] == d[6] && name@[7]
                    == d[7]);
            }
        }
        None
    }
}

/// A position that follows no comma and holds one, or the end, is where the
/// first name ends.
pub proof fn lemma_name_len_is(s: Seq<u8>, n: int)
    requires
        0 <= n <= s.len(),
        forall|j: int| 0 <= j < n ==> s[j] != COMMA,
        n < s.len() ==> s[n] == COMMA,
    ensures
        name_len(s) == n,
    decreases s.len(),
{
    if s.len() == 0 || s[0] == COMMA {
    } else {
        let t = s.skip(1);
        assert forall|j: int| 0 <= j < n - 1 implies t[j] != COMMA by {
            assert(t[j] == s[j + 1]);
        }
        lemma_name_len_is(t, n - 1);
    }
}

/// A subscription forwards a type of event exactly when its list names that
/// type.
pub proof fn lemma_subscription_names(list: Seq<Seq<u8>>, kind: EventKind)
    ensures
        subscription_of(list).admits(kind) <==> exists|i: int|
            0 <= i < list.len() && #[trigger] kind_of(list[i]) == Some(kind),
    decreases list.len(),
{
    if list.len() > 0 {
        let front = list.drop_last();
        lemma_subscription_names(front, kind);
        if subscription_of(list).admits(kind) {
            if kind_of(list.last()) == Some(kind) {
                assert(kind_of(list[list.len() - 1]) == Some(kind));
            } else {
                assert(subscription_of(front).admits(kind));
                let i = choose|i: int| 0 <= i < front.len() && #[trigger] kind_of(front[i]) == Some(kind);
                assert(kind_of(list[i]) == Some(kind));
            }
        }
        if exists|i: int| 0 <= i < list.len() && #[trigger] kind_of(list[i]) == Some(kind) {
            let i = choose|i: int| 0 <= i < list.len() && #[trigger] kind_of(list[i]) == Some(kind);
            if i < list.len() - 1 {
                assert(kind_of(front[i]) == Some(kind));
            }
        }
    }
}

} // verus!
