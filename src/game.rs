use vstd::prelude::*;

use crate::component::Component;
use crate::input::Keys;


verus! {

/// A structural change of the stage, with its identifiers already resolved.
pub enum Command {
    /// Take the first identifier off the stage, then reset and stage each of
    /// the others.
    SwapFor(usize, Vec<usize>),
    /// Take each identifier off the stage.
    Remove(Vec<usize>),
    /// Stage each identifier.
    Add(Vec<usize>),
}

/// What a command holds, with its identifiers as a sequence.
pub enum CommandView {
    SwapFor(usize, Seq<usize>),
    Remove(Seq<usize>),
    Add(Seq<usize>),
}

impl View for Command {
    type V = CommandView;

    open spec fn view(&self) -> CommandView {
        match self {
            Command::SwapFor(r, ids) => CommandView::SwapFor(*r, ids@),
            Command::Remove(ids) => CommandView::Remove(ids@),
            Command::Add(ids) => CommandView::Add(ids@),
        }
    }
}

/// The lowest identifier in `store` whose node answers to `namespace` and
/// `content`.
pub open spec fn first_match(store: Seq<Component>, namespace: Seq<char>, content: Seq<char>) -> Option<usize>
    decreases store.len(),
{
    if store.len() == 0 {
        None
    } else {
        match first_match(store.drop_last(), namespace, content) {
            Some(i) => Some(i),
            None => if store.last().is_match(namespace, content) {
                Some((store.len() - 1) as usize)
            } else {
                None
            },
        }
    }
}

/// The identifiers that `contents` resolve to in `namespace`, in order, with
/// the ones that match nothing left out.
pub open spec fn resolve(store: Seq<Component>, namespace: Seq<char>, contents: Seq<Seq<char>>) -> Seq<usize>
    decreases contents.len(),
{
    if contents.len() == 0 {
        Seq::empty()
    } else {
        let prev = resolve(store, namespace, contents.drop_last());
        match first_match(store, namespace, contents.last()) {
            Some(i) => prev.push(i),
            None => prev,
        }
    }
}

/// The stage flags after one command.
pub open spec fn apply_flags(flags: Seq<bool>, cmd: CommandView) -> Seq<bool> {
    Seq::new(
        flags.len(),
        |i: int|
            match cmd {
                CommandView::Add(ids) => flags[i] || ids.contains(i as usize),
                CommandView::Remove(ids) => flags[i] && !ids.contains(i as usize),
                CommandView::SwapFor(r, ids) => (flags[i] && i != r) || ids.contains(i as usize),
            },
    )
}

/// The store after one command: a swap resets the nodes it brings in.
pub open spec fn apply_store(store: Seq<Component>, cmd: CommandView) -> Seq<Component> {
    match cmd {
        CommandView::SwapFor(_, ids) => Seq::new(
            store.len(),
            |i: int|
                if ids.contains(i as usize) {
                    store[i].reset_spec()
                } else {
                    store[i]
                },
        ),
        _ => store,
    }
}

/// Stage flags and store after applying `cmds` in order.
pub open spec fn replay(flags: Seq<bool>, store: Seq<Component>, cmds: Seq<CommandView>) -> (Seq<bool>, Seq<Component>)
    decreases cmds.len(),
{
    if cmds.len() == 0 {
        (flags, store)
    } else {
        let prev = replay(flags, store, cmds.drop_last());
        (apply_flags(prev.0, cmds.last()), apply_store(prev.1, cmds.last()))
    }
}

/// The staged identifiers below `n`, in increasing order.
pub open spec fn staged(flags: Seq<bool>, n: nat) -> Seq<usize>
    decreases n,
{
    if n == 0 {
        Seq::empty()
    } else if flags[n - 1] {
        staged(flags, (n - 1) as nat).push((n - 1) as usize)
    } else {
        staged(flags, (n - 1) as nat)
    }
}

/// The commands that the staged nodes below `n` ask for during an update
/// pass with `keys`: each request replaces the node that made it.
pub open spec fn requests(store: Seq<Component>, flags: Seq<bool>, keys: Keys, n: nat) -> Seq<CommandView>
    decreases n,
{
    if n == 0 {
        Seq::empty()
    } else {
        let prev = requests(store, flags, keys, (n - 1) as nat);
        let i = n - 1;
        if flags[i] {
            match store[i].request_spec(keys) {
                Some((ns, c)) => prev.push(CommandView::SwapFor(i as usize, resolve(store, ns, seq![c]))),
                None => prev,
            }
        } else {
            prev
        }
    }
}

/// The store after an update pass with `keys`: each staged node has taken
/// its update.
pub open spec fn pass_store(store: Seq<Component>, flags: Seq<bool>, keys: Keys) -> Seq<Component> {
    Seq::new(
        store.len(),
        |i: int|
            if flags[i] {
                store[i].updated_spec(keys)
            } else {
                store[i]
            },
    )
}

/// The store after a draw pass: each staged node has advanced its animation.
pub open spec fn drawn_store(store: Seq<Component>, flags: Seq<bool>) -> Seq<Component> {
    Seq::new(
        store.len(),
        |i: int|
            if flags[i] {
                store[i].step_spec()
            } else {
                store[i]
            },
    )
}

/// Two stores whose nodes answer to the same names.
pub open spec fn same_names(a: Seq<Component>, b: Seq<Component>) -> bool {
    &&& a.len() == b.len()
    &&& forall|i: int|
        0 <= i < a.len() ==> #[trigger] a[i].namespace_spec() == b[i].namespace_spec()
            && a[i].content_spec() == b[i].content_spec()
}

/// Resolution reads the names of the nodes alone.
pub proof fn lemma_first_match_names(a: Seq<Component>, b: Seq<Component>, namespace: Seq<char>, content: Seq<char>)
    requires
        same_names(a, b),
    ensures
        first_match(a, namespace, content) == first_match(b, namespace, content),
    decreases a.len(),
{
    if a.len() > 0 {
        lemma_first_match_names(a.drop_last(), b.drop_last(), namespace, content);
        assert(a.last().namespace_spec() == b.last().namespace_spec());
    }
}

/// Resolution of a single content.
pub proof fn lemma_resolve_one(store: Seq<Component>, namespace: Seq<char>, content: Seq<char>)
    ensures
        resolve(store, namespace, seq![content]) == match first_match(store, namespace, content) {
            Some(i) => seq![i],
            None => Seq::<usize>::empty(),
        },
{
    let cs = seq![content];
    assert(cs.drop_last() =~= Seq::<Seq<char>>::empty());
    assert(resolve(store, namespace, Seq::<Seq<char>>::empty()) == Seq::<usize>::empty());
    assert(Seq::<usize>::empty().push(0usize) =~= seq![0usize]);
    match first_match(store, namespace, content) {
        Some(i) => assert(Seq::<usize>::empty().push(i) =~= seq![i]),
        None => {},
    }
}

/// Owns every node ever inserted; stages some of them; queues the commands
/// that change which.
pub struct Game {
    world: Vec<Component>,
    stage: Vec<bool>,
    commands: Vec<Command>,
    current_id: Option<usize>,
    tick: u64,
}

impl Game {
    /// Every node inserted so far, by identifier.
    pub closed spec fn store(self) -> Seq<Component> {
        self.world@
    }

    /// For each identifier, whether it stands on the stage.
    pub closed spec fn active(self) -> Seq<bool> {
        self.stage@
    }

    /// The commands waiting for the next drain, oldest first.
    pub closed spec fn queue(self) -> Seq<CommandView> {
        self.commands@.map_values(|c: Command| c@)
    }

    /// The identifier of the node being updated, during an update pass.
    pub closed spec fn current_spec(self) -> Option<usize> {
        self.current_id
    }

    pub closed spec fn ticks(self) -> u64 {
        self.tick
    }

    /// Every stage flag belongs to a stored node.
    pub open spec fn wf(self) -> bool {
        self.active().len() == self.store().len()
    }

    pub fn new() -> (g: Game)
        ensures
            g.wf(),
            g.store() == Seq::<Component>::empty(),
            g.active() == Seq::<bool>::empty(),
            g.queue() == Seq::<CommandView>::empty(),
            g.current_spec() is None,
            g.ticks() == 0,
    {
        let g = Game { world: Vec::new(), stage: Vec::new(), commands: Vec::new(), current_id: None, tick: 0 };
        proof {
            assert(g.queue() =~= Seq::<CommandView>::empty());
        }
        g
    }

    /// Append `cmd` to the queue.
    fn enqueue(&mut self, cmd: Command)
        ensures
            final(self).queue() == old(self).queue().push(cmd@),
            final(self).world == old(self).world,
            final(self).stage == old(self).stage,
            final(self).current_id == old(self).current_id,
            final(self).tick == old(self).tick,
    {
        let ghost c = cmd@;
        self.commands.push(cmd);
        proof {
            assert(self.queue() =~= old(self).queue().push(c));
        }
    }

    /// The lowest identifier whose node answers to `namespace` and `content`.
    fn find(&self, namespace: &String, content: &String) -> (r: Option<usize>)
        ensures
            r == first_match(self.store(), namespace@, content@),
    {
        let mut found: Option<usize> = None;
        let mut i: usize = 0;
        while i < self.world.len()
            invariant
                0 <= i <= self.world@.len(),
                found == first_match(self.world@.take(i as int), namespace@, content@),
            decreases self.world@.len() - i,
        {
            proof {
                assert(self.world@.take(i + 1).drop_last() =~= self.world@.take(i as int));
                assert(self.world@.take(i + 1).last() == self.world@[i as int]);
            }
            let hit = self.world[i].search(namespace, content);
            match found {
                None => {
                    if hit {
                        found = Some(i);
                    }
                },
                Some(_) => {},
            }
            i += 1;
        }
        proof {
            assert(self.world@.take(i as int) =~= self.world@);
        }
        found
    }

    /// Directory search: the lowest identifier whose node answers to
    /// `namespace` and `content`, if any does.
    pub fn search(&self, namespace: &str, content: &str) -> (r: Option<usize>)
        ensures
            r == first_match(self.store(), namespace@, content@),
    {
        let ns = namespace.to_owned();
        let c = content.to_owned();
        self.find(&ns, &c)
    }

    /// Resolve each of `contents` in `namespace`, dropping the misses.
    fn resolve_ids(&self, namespace: &str, contents: &[&str]) -> (ids: Vec<usize>)
        ensures
            ids@ == resolve(self.store(), namespace@, contents@.map_values(|s: &str| s@)),
    {
        let ghost cs = contents@.map_values(|s: &str| s@);
        let ns = namespace.to_owned();
        let mut ids: Vec<usize> = Vec::new();
        let mut i: usize = 0;
        while i < contents.len()
            invariant
                0 <= i <= contents@.len(),
                cs == contents@.map_values(|s: &str| s@),
                ns@ == namespace@,
                ids@ == resolve(self.store(), namespace@, cs.take(i as int)),
            decreases contents@.len() - i,
        {
            proof {
                assert(cs.take(i + 1).drop_last() =~= cs.take(i as int));
                assert(cs.take(i + 1).last() == contents@[i as int]@);
            }
            let c = contents[i].to_owned();
            match self.find(&ns, &c) {
                Some(id) => ids.push(id),
                None => {},
            }
            i += 1;
        }
        proof {
            assert(cs.take(i as int) =~= cs);
        }
        ids
    }

    /// Queue a command that stages the nodes found for `contents`.
    pub fn add(&mut self, namespace: &str, contents: &[&str]) -> (r: Option<()>)
        requires
            old(self).wf(),
        ensures
            r is Some,
            final(self).wf(),
            final(self).queue() == old(self).queue().push(
                CommandView::Add(resolve(old(self).store(), namespace@, contents@.map_values(|s: &str| s@))),
            ),
            final(self).store() == old(self).store(),
            final(self).active() == old(self).active(),
            final(self).current_spec() == old(self).current_spec(),
            final(self).ticks() == old(self).ticks(),
    {
        let ids = self.resolve_ids(namespace, contents);
        self.enqueue(Command::Add(ids));
        Some(())
    }

    /// Queue a command that takes the nodes found for `contents` off the stage.
    pub fn remove(&mut self, namespace: &str, contents: &[&str]) -> (r: Option<()>)
        requires
            old(self).wf(),
        ensures
            r is Some,
            final(self).wf(),
            final(self).queue() == old(self).queue().push(
                CommandView::Remove(resolve(old(self).store(), namespace@, contents@.map_values(|s: &str| s@))),
            ),
            final(self).store() == old(self).store(),
            final(self).active() == old(self).active(),
            final(self).current_spec() == old(self).current_spec(),
            final(self).ticks() == old(self).ticks(),
    {
        let ids = self.resolve_ids(namespace, contents);
        self.enqueue(Command::Remove(ids));
        Some(())
    }

    /// Queue the replacement of the node being updated by the nodes found
    /// for `contents`. Outside an update there is no such node: nothing is
    /// queued and the result is `None`.
    pub fn swap_for(&mut self, namespace: &str, contents: &[&str]) -> (r: Option<()>)
        requires
            old(self).wf(),
        ensures
            final(self).wf(),
            r is Some <==> old(self).current_spec() is Some,
            final(self).queue() == match old(self).current_spec() {
                Some(cur) => old(self).queue().push(
                    CommandView::SwapFor(cur, resolve(old(self).store(), namespace@, contents@.map_values(|s: &str| s@))),
                ),
                None => old(self).queue(),
            },
            final(self).store() == old(self).store(),
            final(self).active() == old(self).active(),
            final(self).current_spec() == old(self).current_spec(),
            final(self).ticks() == old(self).ticks(),
    {
        match self.current_id {
            Some(cur) => {
                let ids = self.resolve_ids(namespace, contents);
                self.enqueue(Command::SwapFor(cur, ids));
                Some(())
            },
            None => None,
        }
    }

    /// Insert a node, which keeps its identifier and its place for as long
    /// as the game lives. The first node ever inserted is queued for the
    /// stage.
    pub fn component(&mut self, component: Component) -> (id: usize)
        requires
            old(self).wf(),
            old(self).store().len() < usize::MAX,
        ensures
            final(self).wf(),
            id == old(self).store().len(),
            final(self).store() == old(self).store().push(component),
            final(self).active() == old(self).active().push(false),
            final(self).queue() == if old(self).store().len() == 0 {
                old(self).queue().push(CommandView::Add(seq![0usize]))
            } else {
                old(self).queue()
            },
            final(self).current_spec() == old(self).current_spec(),
            final(self).ticks() == old(self).ticks(),
    {
        let id = self.world.len();
        self.world.push(component);
        self.stage.push(false);
        if id == 0 {
            let first = vec![0usize];
            proof {
                assert(first@ =~= seq![0usize]);
            }
            self.enqueue(Command::Add(first));
        }
        id
    }

    fn set_flag(&mut self, id: usize, on: bool)
        requires
            old(self).wf(),
            id < old(self).stage@.len(),
        ensures
            final(self).wf(),
            final(self).stage@ == old(self).stage@.update(id as int, on),
            final(self).world == old(self).world,
            final(self).commands == old(self).commands,
            final(self).current_id == old(self).current_id,
            final(self).tick == old(self).tick,
    {
        self.stage.set(id, on);
    }

    /// Apply one command to the stage (and, for a swap, reset what it brings in).
    fn apply_one(&mut self, cmd: &Command)
        requires
            old(self).wf(),
        ensures
            final(self).wf(),
            final(self).stage@ == apply_flags(old(self).stage@, cmd@),
            final(self).world@ == apply_store(old(self).world@, cmd@),
            final(self).commands == old(self).commands,
            final(self).current_id == old(self).current_id,
            final(self).tick == old(self).tick,
    {
        let ghost f0 = self.stage@;
        let ghost w0 = self.world@;
        let ghost c0 = self.commands;
        let ghost cur0 = self.current_id;
        let ghost t0 = self.tick;
        match cmd {
            Command::Add(ids) => {
                let mut j: usize = 0;
                while j < ids.len()
                    invariant
                        self.wf(),
                        0 <= j <= ids@.len(),
                        self.stage@.len() == f0.len(),
                        self.world@ == w0,
                        self.commands == c0,
                        self.current_id == cur0,
                        self.tick == t0,
                        forall|k: int|
                            0 <= k < f0.len() ==> #[trigger] self.stage@[k] == (f0[k] || exists|m: int|
                                0 <= m < j && ids@[m] == k as usize),
                    decreases ids@.len() - j,
                {
                    let id = ids[j];
                    if id < self.stage.len() {
                        self.set_flag(id, true);
                    }
                    assert forall|k: int| 0 <= k < f0.len() implies #[trigger] self.stage@[k] == (f0[k]
                        || exists|m: int| 0 <= m < j + 1 && ids@[m] == k as usize) by {
                        if ids@[j as int] == k as usize {
                            assert(0 <= j < j + 1 && ids@[j as int] == k as usize);
                        }
                    }
                    j += 1;
                }
                assert(self.stage@ =~= apply_flags(f0, cmd@));
            },
            Command::Remove(ids) => {
                let mut j: usize = 0;
                while j < ids.len()
                    invariant
                        self.wf(),
                        0 <= j <= ids@.len(),
                        self.stage@.len() == f0.len(),
                        self.world@ == w0,
                        self.commands == c0,
                        self.current_id == cur0,
                        self.tick == t0,
                        forall|k: int|
                            0 <= k < f0.len() ==> #[trigger] self.stage@[k] == (f0[k] && !exists|m: int|
                                0 <= m < j && ids@[m] == k as usize),
                    decreases ids@.len() - j,
                {
                    let id = ids[j];
                    if id < self.stage.len() {
                        self.set_flag(id, false);
                    }
                    assert forall|k: int| 0 <= k < f0.len() implies #[trigger] self.stage@[k] == (f0[k]
                        && !exists|m: int| 0 <= m < j + 1 && ids@[m] == k as usize) by {
                        if ids@[j as int] == k as usize {
                            assert(0 <= j < j + 1 && ids@[j as int] == k as usize);
                        }
                    }
                    j += 1;
                }
                assert(self.stage@ =~= apply_flags(f0, cmd@));
            },
            Command::SwapFor(retired, ids) => {
                let r = *retired;
                if r < self.stage.len() {
                    self.set_flag(r, false);
                }
                let mut j: usize = 0;
                while j < ids.len()
                    invariant
                        self.wf(),
                        0 <= j <= ids@.len(),
                        self.stage@.len() == f0.len(),
                        self.world@.len() == w0.len(),
                        self.commands == c0,
                        self.current_id == cur0,
                        self.tick == t0,
                        r == *retired,
                        forall|k: int|
                            0 <= k < f0.len() ==> #[trigger] self.stage@[k] == ((f0[k] && k != r) || exists|m: int|
                                0 <= m < j && ids@[m] == k as usize),
                        forall|k: int|
                            0 <= k < w0.len() ==> #[trigger] self.world@[k] == if exists|m: int|
                                0 <= m < j && ids@[m] == k as usize {
                                w0[k].reset_spec()
                            } else {
                                w0[k]
                            },
                    decreases ids@.len() - j,
                {
                    let id = ids[j];
                    if id < self.stage.len() {
                        proof {
                            crate::component::lemma_reset_idempotent(w0[id as int]);
                        }
                        self.world[id].reset();
                        self.set_flag(id, true);
                    }
                    assert forall|k: int| 0 <= k < f0.len() implies #[trigger] self.stage@[k] == ((f0[k]
                        && k != r) || exists|m: int| 0 <= m < j + 1 && ids@[m] == k as usize) by {
                        if ids@[j as int] == k as usize {
                            assert(0 <= j < j + 1 && ids@[j as int] == k as usize);
                        }
                    }
                    assert forall|k: int| 0 <= k < w0.len() implies #[trigger] self.world@[k] == if exists|m: int|
                        0 <= m < j + 1 && ids@[m] == k as usize {
                        w0[k].reset_spec()
                    } else {
                        w0[k]
                    } by {
                        if ids@[j as int] == k as usize {
                            assert(0 <= j < j + 1 && ids@[j as int] == k as usize);
                        }
                    }
                    j += 1;
                }
                assert(self.stage@ =~= apply_flags(f0, cmd@));
                assert(self.world@ =~= apply_store(w0, cmd@));
            },
        }
    }

    /// Drain the queue: apply every queued command in order, as one batch,
    /// and leave the queue empty.
    pub fn apply_commands(&mut self)
        requires
            old(self).wf(),
        ensures
            final(self).wf(),
            final(self).active() == replay(old(self).active(), old(self).store(), old(self).queue()).0,
            final(self).store() == replay(old(self).active(), old(self).store(), old(self).queue()).1,
            final(self).queue() == Seq::<CommandView>::empty(),
            final(self).current_spec() == old(self).current_spec(),
            final(self).ticks() == old(self).ticks(),
    {
        let mut cmds: Vec<Command> = Vec::new();
        std::mem::swap(&mut cmds, &mut self.commands);
        let ghost q = cmds@.map_values(|c: Command| c@);
        let ghost f0 = self.stage@;
        let ghost w0 = self.world@;
        proof {
            assert(q.take(0) =~= Seq::<CommandView>::empty());
        }
        let mut i: usize = 0;
        while i < cmds.len()
            invariant
                self.wf(),
                0 <= i <= cmds@.len(),
                q == cmds@.map_values(|c: Command| c@),
                self.commands@ == Seq::<Command>::empty(),
                self.current_id == old(self).current_id,
                self.tick == old(self).tick,
                self.stage@ == replay(f0, w0, q.take(i as int)).0,
                self.world@ == replay(f0, w0, q.take(i as int)).1,
            decreases cmds@.len() - i,
        {
            self.apply_one(&cmds[i]);
            proof {
                assert(q.take(i + 1).drop_last() =~= q.take(i as int));
                assert(q.take(i + 1).last() == cmds@[i as int]@);
            }
            i += 1;
        }
        proof {
            assert(q.take(i as int) =~= q);
            assert(self.queue() =~= Seq::<CommandView>::empty());
        }
    }

    /// Queue the replacement of node `retired` by the node found for
    /// `namespace` and `content`.
    fn enqueue_swap(&mut self, retired: usize, namespace: &String, content: &String)
        ensures
            final(self).queue() == old(self).queue().push(
                CommandView::SwapFor(retired, resolve(old(self).store(), namespace@, seq![content@])),
            ),
            final(self).world == old(self).world,
            final(self).stage == old(self).stage,
            final(self).current_id == old(self).current_id,
            final(self).tick == old(self).tick,
    {
        let mut ids: Vec<usize> = Vec::new();
        match self.find(namespace, content) {
            Some(id) => ids.push(id),
            None => {},
        }
        proof {
            lemma_resolve_one(self.store(), namespace@, content@);
            assert(ids@ =~= resolve(self.store(), namespace@, seq![content@]));
        }
        self.enqueue(Command::SwapFor(retired, ids));
    }

    /// The update pass: each staged node, in increasing identifier order,
    /// takes one update with `keys` while it is the current node; each
    /// request to be replaced is queued as a swap of that node.
    pub fn update_pass(&mut self, keys: &Keys)
        requires
            old(self).wf(),
        ensures
            final(self).wf(),
            final(self).active() == old(self).active(),
            final(self).store() == pass_store(old(self).store(), old(self).active(), *keys),
            final(self).queue() == old(self).queue() + requests(
                old(self).store(),
                old(self).active(),
                *keys,
                old(self).store().len(),
            ),
            final(self).current_spec() is None,
            final(self).ticks() == old(self).ticks(),
    {
        let ghost f0 = self.stage@;
        let ghost w0 = self.world@;
        let ghost q0 = self.queue();
        let mut i: usize = 0;
        while i < self.world.len()
            invariant
                self.wf(),
                0 <= i <= w0.len(),
                self.stage@ == f0,
                self.world@.len() == w0.len(),
                self.tick == old(self).tick,
                forall|k: int|
                    0 <= k < w0.len() ==> #[trigger] self.world@[k] == if k < i && f0[k] {
                        w0[k].updated_spec(*keys)
                    } else {
                        w0[k]
                    },
                self.queue() == q0 + requests(w0, f0, *keys, i as nat),
            decreases w0.len() - i,
        {
            let ghost q1 = self.queue();
            if self.stage[i] {
                self.current_id = Some(i);
                let req = self.world[i].update(keys);
                match req {
                    Some(q) => {
                        proof {
                            assert(same_names(self.world@, w0));
                            lemma_first_match_names(self.world@, w0, q.namespace@, q.content@);
                            lemma_resolve_one(self.world@, q.namespace@, q.content@);
                            lemma_resolve_one(w0, q.namespace@, q.content@);
                        }
                        self.enqueue_swap(i, &q.namespace, &q.content);
                    },
                    None => {},
                }
            }
            proof {
                assert(self.queue() =~= q0 + requests(w0, f0, *keys, (i + 1) as nat));
            }
            i += 1;
        }
        self.current_id = None;
        proof {
            assert(self.world@ =~= pass_store(w0, f0, *keys));
        }
    }

    /// One frame of logic: drain the queue, then run the update pass.
    pub fn update(&mut self, keys: &Keys)
        requires
            old(self).wf(),
        ensures
            final(self).wf(),
            ({
                let (flags, store) = replay(old(self).active(), old(self).store(), old(self).queue());
                &&& final(self).active() == flags
                &&& final(self).store() == pass_store(store, flags, *keys)
                &&& final(self).queue() == requests(store, flags, *keys, store.len())
            }),
            final(self).current_spec() is None,
            final(self).ticks() == old(self).ticks(),
    {
        self.apply_commands();
        let ghost mid = *self;
        self.update_pass(keys);
        proof {
            let r = requests(mid.store(), mid.active(), *keys, mid.store().len());
            assert(Seq::<CommandView>::empty() + r =~= r);
        }
    }

    /// The draw pass: each staged node advances its animation by one step.
    /// The result lists the staged identifiers in increasing order, the
    /// order in which they are to be drawn.
    pub fn draw(&mut self) -> (ids: Vec<usize>)
        requires
            old(self).wf(),
        ensures
            final(self).wf(),
            ids@ == staged(old(self).active(), old(self).store().len()),
            final(self).active() == old(self).active(),
            final(self).store() == drawn_store(old(self).store(), old(self).active()),
            final(self).queue() == old(self).queue(),
            final(self).current_spec() == old(self).current_spec(),
            final(self).ticks() == old(self).ticks(),
    {
        let ghost f0 = self.stage@;
        let ghost w0 = self.world@;
        let mut ids: Vec<usize> = Vec::new();
        let mut i: usize = 0;
        while i < self.world.len()
            invariant
                self.wf(),
                0 <= i <= w0.len(),
                self.stage@ == f0,
                self.world@.len() == w0.len(),
                self.commands == old(self).commands,
                self.current_id == old(self).current_id,
                self.tick == old(self).tick,
                forall|k: int|
                    0 <= k < w0.len() ==> #[trigger] self.world@[k] == if k < i && f0[k] {
                        w0[k].step_spec()
                    } else {
                        w0[k]
                    },
                ids@ == staged(f0, i as nat),
            decreases w0.len() - i,
        {
            if self.stage[i] {
                self.world[i].step();
                ids.push(i);
            }
            i += 1;
        }
        proof {
            assert(self.world@ =~= drawn_store(w0, f0));
        }
        ids
    }

    /// The frame counter.
    pub fn tick(&self) -> (r: u64)
        ensures
            r == self.ticks(),
    {
        self.tick
    }

    /// Count one more frame; the counter never goes back.
    pub fn add_tick(&mut self)
        requires
            old(self).wf(),
        ensures
            final(self).wf(),
            final(self).ticks() == if old(self).ticks() < u64::MAX {
                (old(self).ticks() + 1) as u64
            } else {
                old(self).ticks()
            },
            final(self).store() == old(self).store(),
            final(self).active() == old(self).active(),
            final(self).queue() == old(self).queue(),
            final(self).current_spec() == old(self).current_spec(),
    {
        self.tick = self.tick.saturating_add(1);
    }

    /// The number of nodes inserted so far.
    pub fn len(&self) -> (r: usize)
        ensures
            r == self.store().len(),
    {
        self.world.len()
    }

    /// The node with identifier `id`, if there is one.
    pub fn get(&self, id: usize) -> (r: Option<&Component>)
        ensures
            id < self.store().len() ==> r == Some(&self.store()[id as int]),
            id >= self.store().len() ==> r is None,
    {
        if id < self.world.len() {
            Some(&self.world[id])
        } else {
            None
        }
    }

    /// Does node `id` stand on the stage?
    pub fn is_active(&self, id: usize) -> (r: bool)
        ensures
            r == (id < self.active().len() && self.active()[id as int]),
    {
        id < self.stage.len() && self.stage[id]
    }

    /// The staged identifiers, in increasing order.
    pub fn stage_ids(&self) -> (ids: Vec<usize>)
        ensures
            ids@ == staged(self.active(), self.active().len()),
    {
        let mut ids: Vec<usize> = Vec::new();
        let mut i: usize = 0;
        while i < self.stage.len()
            invariant
                0 <= i <= self.stage@.len(),
                ids@ == staged(self.stage@, i as nat),
            decreases self.stage@.len() - i,
        {
            if self.stage[i] {
                ids.push(i);
            }
            i += 1;
        }
        ids
    }

    /// The number of commands waiting for the next drain.
    pub fn pending(&self) -> (r: usize)
        ensures
            r == self.queue().len(),
    {
        self.commands.len()
    }

    /// The node being updated, during an update pass.
    pub fn current_id(&self) -> (r: Option<usize>)
        ensures
            r == self.current_spec(),
    {
        self.current_id
    }
}

/// Replaying a single command applies it.
pub proof fn lemma_replay_one(flags: Seq<bool>, store: Seq<Component>, cmd: CommandView)
    ensures
        replay(flags, store, seq![cmd]) == (apply_flags(flags, cmd), apply_store(store, cmd)),
{
    assert(seq![cmd].drop_last() =~= Seq::<CommandView>::empty());
    assert(seq![cmd].last() == cmd);
    assert(replay(flags, store, Seq::<CommandView>::empty()) == (flags, store));
}

/// Replaying two commands applies them in order.
pub proof fn lemma_replay_two(flags: Seq<bool>, store: Seq<Component>, a: CommandView, b: CommandView)
    ensures
        replay(flags, store, seq![a, b]) == (
            apply_flags(apply_flags(flags, a), b),
            apply_store(apply_store(store, a), b),
        ),
{
    assert(seq![a, b].drop_last() =~= seq![a]);
    assert(seq![a, b].last() == b);
    lemma_replay_one(flags, store, a);
}

/// Insertion is stable: along any run of insertions, the node at an
/// identifier that existed at some point is the same node at every later
/// point.
pub proof fn law_insertion_stable(stores: Seq<Seq<Component>>, added: Seq<Component>, j: int, k: int)
    requires
        stores.len() == added.len() + 1,
        forall|n: int| 0 <= n < added.len() ==> #[trigger] stores[n + 1] == stores[n].push(added[n]),
        0 <= j < stores.len(),
        0 <= k < stores[j].len(),
    ensures
        forall|n: int| j <= n < stores.len() ==> k < #[trigger] stores[n].len() && stores[n][k] == stores[j][k],
{
    assert forall|n: int| j <= n < stores.len() implies k < #[trigger] stores[n].len() && stores[n][k]
        == stores[j][k] by {
        lemma_insertion_stable_upto(stores, added, j, k, n);
    }
}

proof fn lemma_insertion_stable_upto(stores: Seq<Seq<Component>>, added: Seq<Component>, j: int, k: int, n: int)
    requires
        stores.len() == added.len() + 1,
        forall|n: int| 0 <= n < added.len() ==> #[trigger] stores[n + 1] == stores[n].push(added[n]),
        0 <= j <= n < stores.len(),
        0 <= k < stores[j].len(),
    ensures
        k < stores[n].len() && stores[n][k] == stores[j][k],
    decreases n - j,
{
    if n > j {
        lemma_insertion_stable_upto(stores, added, j, k, n - 1);
        assert(stores[(n - 1) + 1] == stores[n - 1].push(added[n - 1]));
    }
}

/// The first node inserted into an empty game is on the stage after the
/// next drain, whatever else was queued before it.
pub proof fn law_first_insert_is_staged(queue: Seq<CommandView>, c: Component)
    ensures
        replay(
            seq![false],
            seq![c],
            queue.push(CommandView::Add(seq![0usize])),
        ).0 == seq![true],
{
    let q = queue.push(CommandView::Add(seq![0usize]));
    assert(q.drop_last() =~= queue);
    lemma_replay_len(seq![false], seq![c], queue);
    let prev = replay(seq![false], seq![c], queue);
    assert(seq![0usize].contains(0usize)) by {
        assert(seq![0usize][0] == 0usize);
    }
    assert(apply_flags(prev.0, CommandView::Add(seq![0usize])) =~= seq![true]);
}

/// Replaying keeps the number of stage flags and of stored nodes.
pub proof fn lemma_replay_len(flags: Seq<bool>, store: Seq<Component>, cmds: Seq<CommandView>)
    ensures
        replay(flags, store, cmds).0.len() == flags.len(),
        replay(flags, store, cmds).1.len() == store.len(),
    decreases cmds.len(),
{
    if cmds.len() > 0 {
        lemma_replay_len(flags, store, cmds.drop_last());
    }
}

/// Adding a node twice in one drain stages it once, as adding it once
/// does, and touches no node.
pub proof fn law_add_twice(flags: Seq<bool>, store: Seq<Component>, x: usize)
    requires
        flags.len() == store.len(),
        x < store.len(),
    ensures
        replay(flags, store, seq![CommandView::Add(seq![x]), CommandView::Add(seq![x])])
            == replay(flags, store, seq![CommandView::Add(seq![x])]),
        replay(flags, store, seq![CommandView::Add(seq![x])]).0[x as int],
        replay(flags, store, seq![CommandView::Add(seq![x])]).1 == store,
{
    let a = CommandView::Add(seq![x]);
    lemma_replay_one(flags, store, a);
    lemma_replay_two(flags, store, a, a);
    assert(seq![x][0] == x);
    assert(apply_flags(apply_flags(flags, a), a) =~= apply_flags(flags, a));
}

/// A swap that retires staged `x` for unstaged `y` leaves `y` staged and
/// `x` not, resets `y` once and no other node, and the update pass that
/// follows the drain sees `y` already reset.
pub proof fn law_swap_resets_incoming(flags: Seq<bool>, store: Seq<Component>, x: usize, y: usize, keys: Keys)
    requires
        flags.len() == store.len(),
        store.len() <= usize::MAX,
        x < store.len(),
        y < store.len(),
        x != y,
        flags[x as int],
        !flags[y as int],
    ensures
        ({
            let (f, s) = replay(flags, store, seq![CommandView::SwapFor(x, seq![y])]);
            &&& !f[x as int]
            &&& f[y as int]
            &&& forall|i: int| 0 <= i < f.len() && i != x && i != y ==> f[i] == flags[i]
            &&& s[y as int] == store[y as int].reset_spec()
            &&& forall|i: int| 0 <= i < s.len() && i != y ==> s[i] == store[i]
            &&& pass_store(s, f, keys)[y as int] == store[y as int].reset_spec().updated_spec(keys)
        }),
{
    let cmd = CommandView::SwapFor(x, seq![y]);
    lemma_replay_one(flags, store, cmd);
    assert(seq![y][0] == y);
    assert forall|i: int| 0 <= i < store.len() && i != y implies !#[trigger] seq![y].contains(i as usize) by {
        if seq![y].contains(i as usize) {
            let m = choose|m: int| 0 <= m < seq![y].len() && seq![y][m] == i as usize;
            assert(m == 0);
        }
    }
}

/// Removing a node that is not staged changes nothing.
pub proof fn law_remove_unstaged(flags: Seq<bool>, store: Seq<Component>, z: usize)
    requires
        flags.len() == store.len(),
        store.len() <= usize::MAX,
        z >= flags.len() || !flags[z as int],
    ensures
        replay(flags, store, seq![CommandView::Remove(seq![z])]) == (flags, store),
{
    let cmd = CommandView::Remove(seq![z]);
    lemma_replay_one(flags, store, cmd);
    assert forall|i: int| 0 <= i < flags.len() && flags[i] implies !#[trigger] seq![z].contains(i as usize) by {
        if seq![z].contains(i as usize) {
            let m = choose|m: int| 0 <= m < seq![z].len() && seq![z][m] == i as usize;
            assert(m == 0);
        }
    }
    assert(apply_flags(flags, cmd) =~= flags);
}

/// Contents that match no node resolve to no identifier, so the commands
/// built from them leave the store alone, and an add or a remove leaves
/// the stage alone too.
pub proof fn law_misses_change_nothing(
    flags: Seq<bool>,
    store: Seq<Component>,
    namespace: Seq<char>,
    contents: Seq<Seq<char>>,
    retired: usize,
)
    requires
        flags.len() == store.len(),
        forall|i: int| 0 <= i < contents.len() ==> #[trigger] first_match(store, namespace, contents[i]) is None,
    ensures
        resolve(store, namespace, contents) == Seq::<usize>::empty(),
        replay(flags, store, seq![CommandView::Add(resolve(store, namespace, contents))]) == (flags, store),
        replay(flags, store, seq![CommandView::Remove(resolve(store, namespace, contents))]) == (flags, store),
        replay(flags, store, seq![CommandView::SwapFor(retired, resolve(store, namespace, contents))]).1 == store,
{
    lemma_resolve_misses(store, namespace, contents);
    let e = Seq::<usize>::empty();
    lemma_replay_one(flags, store, CommandView::Add(e));
    lemma_replay_one(flags, store, CommandView::Remove(e));
    lemma_replay_one(flags, store, CommandView::SwapFor(retired, e));
    assert(apply_flags(flags, CommandView::Add(e)) =~= flags);
    assert(apply_flags(flags, CommandView::Remove(e)) =~= flags);
    assert(apply_store(store, CommandView::SwapFor(retired, e)) =~= store);
}

proof fn lemma_resolve_misses(store: Seq<Component>, namespace: Seq<char>, contents: Seq<Seq<char>>)
    requires
        forall|i: int| 0 <= i < contents.len() ==> #[trigger] first_match(store, namespace, contents[i]) is None,
    ensures
        resolve(store, namespace, contents) == Seq::<usize>::empty(),
    decreases contents.len(),
{
    if contents.len() > 0 {
        let prev = contents.drop_last();
        assert forall|i: int| 0 <= i < prev.len() implies #[trigger] first_match(store, namespace, prev[i]) is None by {
            assert(prev[i] == contents[i]);
        }
        lemma_resolve_misses(store, namespace, prev);
        assert(first_match(store, namespace, contents[contents.len() - 1]) is None);
    }
}

} // verus!
