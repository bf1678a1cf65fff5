use vstd::prelude::*;
use vstd::string::*;
use crate::command::{
    args_view, result_view, type_of, Arg, CommandError, ErrorKind, Handler, Value, ValueView,
};

verus! {

/// What `register` does with a name that is taken already.
#[derive(Clone, Copy, Debug, PartialEq, Eq, Structural)]
pub enum DuplicatePolicy {
    /// Refuse it with `DuplicateCommand`.
    Reject,
    /// Replace the earlier handler.
    Overwrite,
}

/// A registered command: its unique name and its handler.
#[derive(Debug)]
pub struct Command {
    pub name: String,
    pub handler: Handler,
}

/// The mapping from command names to handlers. It is filled once, then only
/// read: `dispatch` takes `&self`.
pub struct Registry {
    entries: Vec<Command>,
    policy: DuplicatePolicy,
    table: Ghost<Map<Seq<char>, Handler>>,
}

impl View for Registry {
    type V = Map<Seq<char>, Handler>;

    closed spec fn view(&self) -> Map<Seq<char>, Handler> {
        self.table@
    }
}

/// What dispatching `n` with `args` gives against the table `t`.
pub open spec fn dispatch_outcome(
    t: Map<Seq<char>, Handler>,
    n: Seq<char>,
    args: Seq<(Seq<char>, ValueView)>,
) -> Result<ValueView, (ErrorKind, Seq<char>)> {
    if t.contains_key(n) {
        t[n].outcome(args)
    } else {
        Err((ErrorKind::UnknownCommand, n))
    }
}

impl Registry {
    /// Names are unique, and the entries hold exactly the table.
    pub closed spec fn wf(&self) -> bool {
        let e = self.entries@;
        &&& forall|i: int, j: int|
            0 <= i < j < e.len() ==> (#[trigger] e[i]).name@ != (#[trigger] e[j]).name@
        &&& forall|i: int|
            0 <= i < e.len() ==> self.table@.contains_key((#[trigger] e[i]).name@)
                && self.table@[e[i].name@] == e[i].handler
        &&& forall|n: Seq<char>|
            #[trigger] self.table@.contains_key(n) ==> exists|i: int|
                0 <= i < e.len() && (#[trigger] e[i]).name@ == n
    }

    pub closed spec fn spec_policy(&self) -> DuplicatePolicy {
        self.policy
    }

    /// An empty registry with the given policy for duplicate names.
    pub fn new(policy: DuplicatePolicy) -> (r: Registry)
        ensures
            r.wf(),
            r@ == Map::<Seq<char>, Handler>::empty(),
            r.spec_policy() == policy,
    {
        Registry { entries: Vec::new(), policy, table: Ghost(Map::empty()) }
    }

    /// A registry that holds every known command, refusing duplicates.
    pub fn standard() -> (r: Registry)
        ensures
            r.wf(),
            r@ == map!["greet"@ => Handler::Greet],
            r.spec_policy() == DuplicatePolicy::Reject,
    {
        let mut r = Registry::new(DuplicatePolicy::Reject);
        let _ = r.register("greet", Handler::Greet);
        proof {
            assert(r@ =~= map!["greet"@ => Handler::Greet]);
        }
        r
    }

    pub fn policy(&self) -> (r: DuplicatePolicy)
        ensures
            r == self.spec_policy(),
    {
        self.policy
    }

    pub fn len(&self) -> (r: usize)
        requires
            self.wf(),
        ensures
            r == self@.len(),
    {
        proof {
            self.lemma_len();
        }
        self.entries.len()
    }

    proof fn lemma_len(&self)
        requires
            self.wf(),
        ensures
            self.entries@.len() == self@.len(),
            self@.dom().finite(),
        decreases self.entries@.len(),
    {
        let names = self.entries@.map_values(|c: Command| c.name@);
        assert(self@.dom() =~= names.to_set()) by {
            assert forall|n: Seq<char>| self@.dom().contains(n) implies names.to_set().contains(n) by {
                let i = choose|i: int| 0 <= i < self.entries@.len() && (#[trigger] self.entries@[i]).name@ == n;
                assert(names[i] == n);
            }
            assert forall|n: Seq<char>| names.to_set().contains(n) implies self@.dom().contains(n) by {
                let i = choose|i: int| 0 <= i < names.len() && names[i] == n;
                assert(self.entries@[i].name@ == n);
            }
        }
        assert(names.no_duplicates()) by {
            assert forall|i: int, j: int| 0 <= i < names.len() && 0 <= j < names.len() && i != j implies names[i] != names[j] by {
                if i < j {
                    assert(self.entries@[i].name@ != self.entries@[j].name@);
                } else {
                    assert(self.entries@[j].name@ != self.entries@[i].name@);
                }
            }
        }
        names.unique_seq_to_set();
    }

    /// The index of the entry named `name`, if any.
    fn position(&self, name: &str) -> (r: Option<usize>)
        requires
            self.wf(),
        ensures
            match r {
                Some(i) => i < self.entries@.len() && self.entries@[i as int].name@ == name@,
                None => forall|j: int| 0 <= j < self.entries@.len() ==> (#[trigger] self.entries@[j]).name@ != name@,
            },
            r is Some <==> self@.contains_key(name@),
    {
        let key = String::from_str(name);
        let mut i: usize = 0;
        while i < self.entries.len()
            invariant
                self.wf(),
                key@ == name@,
                i <= self.entries@.len(),
                forall|j: int| 0 <= j < i ==> (#[trigger] self.entries@[j]).name@ != name@,
            decreases self.entries@.len() - i,
        {
            if self.entries[i].name.eq(&key) {
                return Some(i);
            }
            i = i + 1;
        }
        None
    }

    /// Registers `handler` under `name`. A name that is taken already is
    /// refused under `Reject` and replaced under `Overwrite`.
    pub fn register(&mut self, name: &str, handler: Handler) -> (r: Result<(), CommandError>)
        requires
            old(self).wf(),
        ensures
            final(self).wf(),
            final(self).spec_policy() == old(self).spec_policy(),
            old(self)@.contains_key(name@) && old(self).spec_policy() == DuplicatePolicy::Reject
                ==> (r matches Err(e) && e@ == (ErrorKind::DuplicateCommand, name@))
                    && final(self)@ == old(self)@,
            !(old(self)@.contains_key(name@) && old(self).spec_policy() == DuplicatePolicy::Reject)
                ==> r is Ok && final(self)@ == old(self)@.insert(name@, handler),
    {
        match self.position(name) {
            Some(i) => {
                if self.policy == DuplicatePolicy::Reject {
                    return Err(CommandError::new(ErrorKind::DuplicateCommand, name));
                }
                let ghost old_entries = self.entries@;
                self.entries.set(i, Command { name: String::from_str(name), handler });
                self.table = Ghost(self.table@.insert(name@, handler));
                proof {
                    assert forall|k: int| 0 <= k < self.entries@.len() && k != i implies
                        self.entries@[k] == old_entries[k] by {}
                    assert forall|n: Seq<char>| #[trigger] self.table@.contains_key(n) implies exists|k: int|
                        0 <= k < self.entries@.len() && (#[trigger] self.entries@[k]).name@ == n by {
                        if n != name@ {
                            let k = choose|k: int| 0 <= k < old_entries.len() && (#[trigger] old_entries[k]).name@ == n;
                            assert(self.entries@[k].name@ == n);
                        } else {
                            assert(self.entries@[i as int].name@ == n);
                        }
                    }
                }
                Ok(())
            },
            None => {
                let ghost old_entries = self.entries@;
                self.entries.push(Command { name: String::from_str(name), handler });
                self.table = Ghost(self.table@.insert(name@, handler));
                proof {
                    let last = old_entries.len() as int;
                    assert forall|k: int| 0 <= k < last implies self.entries@[k] == old_entries[k] by {}
                    assert forall|n: Seq<char>| #[trigger] self.table@.contains_key(n) implies exists|k: int|
                        0 <= k < self.entries@.len() && (#[trigger] self.entries@[k]).name@ == n by {
                        if n != name@ {
                            let k = choose|k: int| 0 <= k < old_entries.len() && (#[trigger] old_entries[k]).name@ == n;
                            assert(self.entries@[k].name@ == n);
                        } else {
                            assert(self.entries@[last].name@ == n);
                        }
                    }
                }
                Ok(())
            },
        }
    }

    /// The handler registered under `name`.
    pub fn lookup(&self, name: &str) -> (r: Result<Handler, CommandError>)
        requires
            self.wf(),
        ensures
            self@.contains_key(name@) ==> r == Ok::<Handler, CommandError>(self@[name@]),
            !self@.contains_key(name@) ==> (r matches Err(e) && e@ == (ErrorKind::UnknownCommand, name@)),
    {
        match self.position(name) {
            Some(i) => Ok(self.entries[i].handler),
            None => Err(CommandError::new(ErrorKind::UnknownCommand, name)),
        }
    }

    /// Resolves the call `name(args)`: an unknown name, a missing or
    /// mistyped argument, or the handler's own failure comes back as a
    /// structured error; otherwise the handler's value.
    pub fn dispatch(&self, name: &str, args: &Vec<Arg>) -> (r: Result<Value, CommandError>)
        requires
            self.wf(),
        ensures
            result_view(&r) == dispatch_outcome(self@, name@, args_view(args@)),
    {
        let h = self.lookup(name)?;
        h.invoke(args)
    }
}

/// Every registered command, called with arguments of its declared shape,
/// succeeds with a value of its declared result type.
pub proof fn law_registered_command_succeeds(reg: &Registry, n: Seq<char>, args: Seq<(Seq<char>, ValueView)>)
    requires
        reg.wf(),
        reg@.contains_key(n),
        reg@[n].accepts(args),
    ensures
        (dispatch_outcome(reg@, n, args) matches Ok(v) && type_of(v) == reg@[n].result_type()),
{
    match reg@[n] {
        Handler::Greet => {
            assert(reg@[n].spec_params()[0] == ("name"@, crate::command::ValueType::Str));
        },
    }
}

/// A name that is not registered fails with `UnknownCommand`, naming it.
pub proof fn law_unknown_command_fails(reg: &Registry, n: Seq<char>, args: Seq<(Seq<char>, ValueView)>)
    requires
        reg.wf(),
        !reg@.contains_key(n),
    ensures
        dispatch_outcome(reg@, n, args) == Err::<ValueView, (ErrorKind, Seq<char>)>((ErrorKind::UnknownCommand, n)),
{
}

/// After a handler is registered under `n` over an earlier one, calls of `n`
/// go to the newest handler.
pub proof fn law_newest_handler_takes_effect(
    t: Map<Seq<char>, Handler>,
    n: Seq<char>,
    h: Handler,
    args: Seq<(Seq<char>, ValueView)>,
)
    ensures
        dispatch_outcome(t.insert(n, h), n, args) == h.outcome(args),
{
}

/// Dispatch keeps no hidden state: two calls with the same name and
/// arguments against the same registry give the same result.
pub proof fn law_dispatch_repeatable(
    reg: &Registry,
    n: Seq<char>,
    a1: Seq<(Seq<char>, ValueView)>,
    a2: Seq<(Seq<char>, ValueView)>,
)
    requires
        reg.wf(),
        a1 == a2,
    ensures
        dispatch_outcome(reg@, n, a1) == dispatch_outcome(reg@, n, a2),
{
}

} // verus!
