//! The environment: a stack of scopes, each a mapping from names to
//! bindings.

use crate::text::{copy_names, same_text, texts};
use crate::types::{Expr, ExprView};
use std::rc::Rc;
use vstd::prelude::*;

verus! {

/// The bit pattern of the double 1.
pub const ONE: u64 = 0x3FF0_0000_0000_0000;

/// What a name stands for: parameter names and a body. Without
/// parameters it is a value, with parameters a function.
pub struct BindingView {
    pub params: Seq<Seq<char>>,
    pub body: ExprView,
}

/// What a scope is: a mapping from names to bindings.
pub type Bindings = Map<Seq<char>, BindingView>;

/// What an environment is: its scopes, the outermost first.
pub type Scopes = Seq<Bindings>;

/// One name with its binding, as stored.
#[derive(Debug, Clone)]
pub struct Entry {
    pub name: String,
    pub params: Vec<String>,
    pub body: Rc<Expr>,
}

impl Entry {
    /// The binding that this entry gives its name.
    pub open spec fn binding(self) -> BindingView {
        BindingView { params: texts(self.params@), body: self.body@ }
    }
}

/// One level of the environment: a mapping from names to bindings.
///
/// The entries are kept in a vector and found by comparing names. A hash
/// map keyed by strings would do the same work, but nothing could be
/// proved of it: the hash maps of the standard library are specified for
/// keys that are integers. Of two entries with one name the later one
/// counts; `insert` never leaves two.
#[derive(Debug, Clone)]
pub struct Scope {
    pub entries: Vec<Entry>,
}

/// The mapping that a sequence of entries stands for.
pub open spec fn mapping(entries: Seq<Entry>) -> Bindings
    decreases entries.len(),
{
    if entries.len() == 0 {
        Map::empty()
    } else {
        mapping(entries.drop_last()).insert(entries.last().name@, entries.last().binding())
    }
}

/// Whether `i` is the last place in `entries` that holds `name`.
pub open spec fn last_place(entries: Seq<Entry>, name: Seq<char>, i: int) -> bool {
    &&& 0 <= i < entries.len()
    &&& entries[i].name@ == name
    &&& forall|j: int| i < j < entries.len() ==> entries[j].name@ != name
}

/// Whether no entry holds `name`.
pub open spec fn absent(entries: Seq<Entry>, name: Seq<char>) -> bool {
    forall|j: int| 0 <= j < entries.len() ==> entries[j].name@ != name
}

proof fn mapping_absent(entries: Seq<Entry>, name: Seq<char>)
    requires
        absent(entries, name),
    ensures
        !mapping(entries).contains_key(name),
    decreases entries.len(),
{
    if entries.len() > 0 {
        mapping_absent(entries.drop_last(), name);
    }
}

proof fn mapping_last_place(entries: Seq<Entry>, name: Seq<char>, i: int)
    requires
        last_place(entries, name, i),
    ensures
        mapping(entries).contains_key(name),
        mapping(entries)[name] == entries[i].binding(),
    decreases entries.len(),
{
    if i < entries.len() - 1 {
        mapping_last_place(entries.drop_last(), name, i);
    }
}

proof fn mapping_replace(entries: Seq<Entry>, name: Seq<char>, i: int, entry: Entry)
    requires
        last_place(entries, name, i),
        entry.name@ == name,
    ensures
        mapping(entries.update(i, entry)) == mapping(entries).insert(name, entry.binding()),
    decreases entries.len(),
{
    let changed = entries.update(i, entry);
    if i < entries.len() - 1 {
        mapping_replace(entries.drop_last(), name, i, entry);
        assert(changed.drop_last() =~= entries.drop_last().update(i, entry));
        assert(mapping(changed) =~= mapping(entries).insert(name, entry.binding()));
    } else {
        assert(changed.drop_last() =~= entries.drop_last());
        assert(mapping(changed) =~= mapping(entries).insert(name, entry.binding()));
    }
}

impl View for Scope {
    type V = Bindings;

    open spec fn view(&self) -> Bindings {
        mapping(self.entries@)
    }
}

impl Scope {
    /// A scope without names.
    pub fn new() -> (scope: Scope)
        ensures
            scope@ == Bindings::empty(),
    {
        Scope { entries: Vec::new() }
    }

    /// The last place that holds `name`, if any does.
    fn find(&self, name: &str) -> (place: Option<usize>)
        ensures
            match place {
                Some(i) => last_place(self.entries@, name@, i as int),
                None => absent(self.entries@, name@),
            },
    {
        let mut i: usize = self.entries.len();
        while i > 0
            invariant
                i <= self.entries@.len(),
                forall|j: int| i <= j < self.entries@.len() ==> self.entries@[j].name@ != name@,
            decreases i,
        {
            i -= 1;
            if same_text(self.entries[i].name.as_str(), name) {
                return Some(i);
            }
        }
        None
    }

    /// Whether the scope binds `name`.
    pub fn contains_key(&self, name: &str) -> (found: bool)
        ensures
            found == self@.contains_key(name@),
    {
        let place = self.find(name);
        proof {
            match place {
                Some(i) => mapping_last_place(self.entries@, name@, i as int),
                None => mapping_absent(self.entries@, name@),
            }
        }
        place.is_some()
    }

    /// The entry that binds `name`, if the scope binds it: the entry holds
    /// that name and the binding that the scope gives it.
    pub fn get(&self, name: &str) -> (entry: Option<&Entry>)
        ensures
            match entry {
                Some(entry) => entry.name@ == name@ && self@.contains_key(name@) && self@[name@]
                    == entry.binding(),
                None => !self@.contains_key(name@),
            },
    {
        let place = self.find(name);
        proof {
            match place {
                Some(i) => mapping_last_place(self.entries@, name@, i as int),
                None => mapping_absent(self.entries@, name@),
            }
        }
        match place {
            Some(i) => Some(&self.entries[i]),
            None => None,
        }
    }

    /// Binds `name`, in place of what it was bound to before.
    pub fn insert(&mut self, name: &str, params: Vec<String>, body: Rc<Expr>)
        ensures
            final(self)@ == old(self)@.insert(
                name@,
                BindingView { params: texts(params@), body: body@ },
            ),
    {
        let place = self.find(name);
        let entry = Entry { name: name.to_owned(), params, body };
        match place {
            Some(i) => {
                proof {
                    mapping_replace(self.entries@, name@, i as int, entry);
                }
                self.entries.set(i, entry);
            },
            None => {
                self.entries.push(entry);
                assert(self.entries@.drop_last() =~= old(self).entries@);
            },
        }
    }
}

/// A stack of scopes, the outermost first. Names are written to the
/// innermost scope and looked up from the innermost outwards.
#[derive(Debug, Clone)]
pub struct Environment {
    pub contexts: Vec<Scope>,
}

/// The binding that `name` has in the innermost scope that binds it.
pub open spec fn lookup_in(scopes: Scopes, name: Seq<char>) -> Option<
    BindingView,
>
    decreases scopes.len(),
{
    if scopes.len() == 0 {
        None
    } else if scopes.last().contains_key(name) {
        Some(scopes.last()[name])
    } else {
        lookup_in(scopes.drop_last(), name)
    }
}

/// The scopes after `name` is bound in the innermost one. Without a scope
/// there is nothing to write to.
pub open spec fn bind_in(
    scopes: Scopes,
    name: Seq<char>,
    binding: BindingView,
) -> Scopes {
    if scopes.len() == 0 {
        scopes
    } else {
        scopes.drop_last().push(scopes.last().insert(name, binding))
    }
}

/// The scopes after the innermost one is left. Without a scope nothing
/// changes.
pub open spec fn pop_in(scopes: Scopes) -> Scopes {
    if scopes.len() == 0 {
        scopes
    } else {
        scopes.drop_last()
    }
}

/// A value binding: no parameters.
pub open spec fn value_of(body: ExprView) -> BindingView {
    BindingView { params: Seq::empty(), body }
}

/// The mapping that binds each name in `vars` to its value, later pairs
/// over earlier ones.
pub open spec fn values(vars: Seq<(&str, Rc<Expr>)>) -> Bindings
    decreases vars.len(),
{
    if vars.len() == 0 {
        Map::empty()
    } else {
        values(vars.drop_last()).insert(vars.last().0@, value_of(vars.last().1@))
    }
}

/// The scope that every program starts in: `False` is the empty list and
/// `True` a list of one item.
pub open spec fn defaults() -> Bindings {
    Bindings::empty().insert(
        "False"@,
        value_of(ExprView::List(Seq::empty())),
    ).insert("True"@, value_of(ExprView::List(seq![ExprView::Number(ONE)])))
}

impl View for Environment {
    type V = Scopes;

    open spec fn view(&self) -> Scopes {
        Seq::new(self.contexts@.len(), |i: int| self.contexts@[i]@)
    }
}

impl Environment {
    /// An environment without scopes.
    pub fn empty() -> (env: Environment)
        ensures
            env@ == Scopes::empty(),
    {
        let env = Environment { contexts: Vec::new() };
        assert(env@ =~= Scopes::empty());
        env
    }

    /// An environment of one scope that binds each name in `vars` to its
    /// value.
    pub fn from_vars(vars: &[(&str, Rc<Expr>)]) -> (env: Environment)
        ensures
            env@ == seq![values(vars@)],
    {
        let mut scope = Scope::new();
        let n = vars.len();
        let mut i: usize = 0;
        while i < n
            invariant
                i <= n,
                n == vars@.len(),
                scope@ == values(vars@.subrange(0, i as int)),
            decreases n - i,
        {
            scope.insert(vars[i].0, Vec::new(), vars[i].1.clone());
            proof {
                let upto = vars@.subrange(0, i + 1);
                assert(upto.drop_last() =~= vars@.subrange(0, i as int));
                assert(texts(Seq::<String>::empty()) =~= Seq::<Seq<char>>::empty());
            }
            i += 1;
        }
        assert(vars@.subrange(0, n as int) =~= vars@);
        let mut contexts: Vec<Scope> = Vec::new();
        contexts.push(scope);
        let env = Environment { contexts };
        assert(env@ =~= seq![values(vars@)]);
        env
    }

    /// The environment that a program starts in: one scope, which binds
    /// `False` and `True`.
    pub fn default() -> (env: Environment)
        ensures
            env@ == seq![defaults()],
    {
        let mut scope = Scope::new();
        let no_items: Vec<Rc<Expr>> = Vec::new();
        let falsity = Expr::list(no_items.as_slice());
        let mut one_item: Vec<Rc<Expr>> = Vec::new();
        one_item.push(Expr::fnum(ONE));
        let truth = Expr::list(one_item.as_slice());
        proof {
            assert(falsity@->List_0 =~= Seq::<ExprView>::empty());
            assert(truth@->List_0 =~= seq![ExprView::Number(ONE)]);
            assert(texts(Seq::<String>::empty()) =~= Seq::<Seq<char>>::empty());
        }
        scope.insert("False", Vec::new(), falsity);
        scope.insert("True", Vec::new(), truth);
        let mut contexts: Vec<Scope> = Vec::new();
        contexts.push(scope);
        let env = Environment { contexts };
        assert(env@ =~= seq![defaults()]);
        env
    }

    /// What `symbol` is bound to: its parameter names and its body, from
    /// the innermost scope that binds it.
    pub fn lookup(&self, symbol: &str) -> (found: Option<(Vec<String>, Rc<Expr>)>)
        ensures
            match lookup_in(self@, symbol@) {
                Some(binding) => found is Some && texts(found->Some_0.0@) == binding.params
                    && found->Some_0.1@ == binding.body,
                None => found is None,
            },
    {
        let mut i: usize = self.contexts.len();
        assert(self@.subrange(0, i as int) =~= self@);
        while i > 0
            invariant
                i <= self.contexts@.len(),
                lookup_in(self@, symbol@) == lookup_in(self@.subrange(0, i as int), symbol@),
            decreases i,
        {
            i -= 1;
            assert(self@.subrange(0, i + 1).drop_last() =~= self@.subrange(0, i as int));
            match self.contexts[i].get(symbol) {
                Some(entry) => {
                    return Some((copy_names(entry.params.as_slice()), entry.body.clone()));
                },
                None => {},
            }
        }
        None
    }

    /// Whether any scope binds `symbol`.
    pub fn contains_key(&self, symbol: &str) -> (found: bool)
        ensures
            found == lookup_in(self@, symbol@).is_some(),
    {
        let mut i: usize = self.contexts.len();
        assert(self@.subrange(0, i as int) =~= self@);
        while i > 0
            invariant
                i <= self.contexts@.len(),
                lookup_in(self@, symbol@) == lookup_in(self@.subrange(0, i as int), symbol@),
            decreases i,
        {
            i -= 1;
            assert(self@.subrange(0, i + 1).drop_last() =~= self@.subrange(0, i as int));
            if self.contexts[i].contains_key(symbol) {
                return true;
            }
        }
        false
    }

    /// Enters a new, empty scope.
    pub fn push_context(&mut self)
        ensures
            final(self)@ == old(self)@.push(Bindings::empty()),
    {
        self.contexts.push(Scope::new());
        assert(self@ =~= old(self)@.push(Bindings::empty()));
    }

    /// Leaves the innermost scope, with all that it binds. Without a scope
    /// nothing happens.
    pub fn pop_context(&mut self)
        ensures
            final(self)@ == pop_in(old(self)@),
    {
        self.contexts.pop();
        assert(self@ =~= pop_in(old(self)@));
    }

    /// Binds `name` in the innermost scope.
    fn bind(&mut self, name: &str, params: Vec<String>, body: Rc<Expr>) -> (done: bool)
        ensures
            done == (old(self)@.len() > 0),
            final(self)@ == bind_in(
                old(self)@,
                name@,
                BindingView { params: texts(params@), body: body@ },
            ),
    {
        match self.contexts.pop() {
            Some(scope) => {
                let mut scope = scope;
                scope.insert(name, params, body);
                self.contexts.push(scope);
                assert(self@ =~= bind_in(
                    old(self)@,
                    name@,
                    BindingView { params: texts(params@), body: body@ },
                ));
                true
            },
            None => {
                assert(self@ =~= old(self)@);
                false
            },
        }
    }

    /// Binds `var` to the value `val` in the innermost scope. Fails, and
    /// changes nothing, where there is no scope.
    pub fn add_var(&mut self, var: &str, val: Rc<Expr>) -> (done: Result<(), String>)
        ensures
            final(self)@ == bind_in(old(self)@, var@, value_of(val@)),
            old(self)@.len() > 0 ==> done is Ok,
            old(self)@.len() == 0 ==> done is Err && done->Err_0@
                == "Environment does not have any context to add to."@,
    {
        proof {
            assert(texts(Seq::<String>::empty()) =~= Seq::<Seq<char>>::empty());
        }
        if self.bind(var, Vec::new(), val) {
            Ok(())
        } else {
            Err("Environment does not have any context to add to.".to_owned())
        }
    }

    /// Binds `name` to a function in the innermost scope. Fails, and
    /// changes nothing, where there is no scope.
    pub fn add_fn(&mut self, name: &str, params: &[String], body: Rc<Expr>) -> (done: Result<
        (),
        String,
    >)
        ensures
            final(self)@ == bind_in(
                old(self)@,
                name@,
                BindingView { params: texts(params@), body: body@ },
            ),
            old(self)@.len() > 0 ==> done is Ok,
            old(self)@.len() == 0 ==> done is Err && done->Err_0@
                == "Environment does not have a context to add to."@,
    {
        if self.bind(name, copy_names(params), body) {
            Ok(())
        } else {
            Err("Environment does not have a context to add to.".to_owned())
        }
    }

    /// How many scopes there are.
    pub fn num_contexts(&self) -> (n: usize)
        ensures
            n == self@.len(),
    {
        self.contexts.len()
    }
}

/// The scopes after each pair in `writes` is bound in the innermost scope,
/// in order.
pub open spec fn bind_all(
    scopes: Scopes,
    writes: Seq<(Seq<char>, BindingView)>,
) -> Scopes
    decreases writes.len(),
{
    if writes.len() == 0 {
        scopes
    } else {
        bind_in(bind_all(scopes, writes.drop_last()), writes.last().0, writes.last().1)
    }
}

/// Binding a name neither adds nor removes a scope, and leaves every scope
/// but the innermost as it was.
pub proof fn bind_keeps_outer_scopes(
    scopes: Scopes,
    writes: Seq<(Seq<char>, BindingView)>,
)
    ensures
        bind_all(scopes, writes).len() == scopes.len(),
        pop_in(bind_all(scopes, writes)) == pop_in(scopes),
    decreases writes.len(),
{
    if writes.len() > 0 {
        let before = bind_all(scopes, writes.drop_last());
        bind_keeps_outer_scopes(scopes, writes.drop_last());
        if before.len() > 0 {
            assert(pop_in(bind_in(before, writes.last().0, writes.last().1)) =~= pop_in(before));
        }
    }
}

/// Entering a scope, binding any names and leaving the scope again gives
/// back the scopes as they were: every lookup answers as before, and
/// what was bound in between is out of reach.
pub proof fn push_then_pop_restores(
    scopes: Scopes,
    writes: Seq<(Seq<char>, BindingView)>,
)
    ensures
        pop_in(bind_all(scopes.push(Map::empty()), writes)) == scopes,
        forall|name: Seq<char>|
            lookup_in(pop_in(bind_all(scopes.push(Map::empty()), writes)), name) == lookup_in(
                scopes,
                name,
            ),
{
    let entered = scopes.push(Map::empty());
    bind_keeps_outer_scopes(entered, writes);
    assert(pop_in(entered) =~= scopes);
}

/// A name bound in the innermost scope is found there, before any outer
/// binding of the same name; every other name is found where it was.
pub proof fn lookup_after_bind(
    scopes: Scopes,
    name: Seq<char>,
    binding: BindingView,
    other: Seq<char>,
)
    requires
        scopes.len() > 0,
    ensures
        lookup_in(bind_in(scopes, name, binding), name) == Some(binding),
        other != name ==> lookup_in(bind_in(scopes, name, binding), other) == lookup_in(
            scopes,
            other,
        ),
{
    let bound = bind_in(scopes, name, binding);
    assert(bound.drop_last() =~= scopes.drop_last());
}

} // verus!
