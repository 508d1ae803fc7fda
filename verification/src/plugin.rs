//! Plugins hook into copy operations; the registry hands every command to
//! each plugin in registration order and stops at the first refusal.

use crate::config::CopyConfig;
use std::path::PathBuf;
use vstd::prelude::*;

verus! {

/// Context passed to a plugin when a copy command is dispatched.
#[derive(Debug, Clone)]
pub struct PluginContext {
    pub source: PathBuf,
    pub destination: PathBuf,
    pub config: CopyConfig,
}

/// Commands that can be dispatched to plugins.
#[derive(Debug, Clone)]
pub enum CopyCommand {
    /// Before any file is copied.
    PreCopy(PluginContext),
    /// After a single file is copied.
    PostFile { src: PathBuf, dst: PathBuf, bytes: u64, success: bool },
    /// After all files are copied.
    PostCopy { total_files: u64, total_bytes: u64, errors: u64 },
}

/// A plugin that can hook into copy operations.
pub trait Plugin: Send + Sync {
    fn name(&self) -> &str;

    /// The answer of this plugin to a command: `Ok` to continue, `Err` to
    /// abort the operation. A plugin states it by overriding this; one that
    /// does not gives answers that nothing is known of.
    closed spec fn spec_handle(&self, cmd: CopyCommand) -> Result<(), String> {
        arbitrary()
    }

    /// Called when a command is dispatched.
    fn handle(&self, cmd: &CopyCommand) -> (r: Result<(), String>)
        ensures
            r == self.spec_handle(*cmd),
    ;
}

/// How a plugin answers commands.
pub type Answer = spec_fn(CopyCommand) -> Result<(), String>;

/// The answer of a list of plugins to a command: the first refusal in
/// list order, or `Ok` when all of them accept.
pub open spec fn dispatch_outcome(plugins: Seq<Answer>, cmd: CopyCommand) -> Result<(), String>
    decreases plugins.len(),
{
    if plugins.len() == 0 {
        Ok(())
    } else {
        match (plugins[0])(cmd) {
            Err(e) => Err(e),
            Ok(()) => dispatch_outcome(plugins.drop_first(), cmd),
        }
    }
}

struct Registered {
    plugin: Box<dyn Plugin>,
}

/// `Box::new` (std), boxing the plugin as a trait object: the plugin is
/// moved to the heap unchanged, so the entry answers every command as the
/// plugin does. Verus relates a boxed trait object to the value in it only
/// where the value's type is known, not for a type parameter, hence this
/// statement.
#[verifier::external_body]
fn registered<P: Plugin + 'static>(plugin: P) -> (r: Registered)
    ensures
        forall|cmd: CopyCommand| #[trigger] answer_of(r)(cmd) == plugin.spec_handle(cmd),
{
    Registered { plugin: Box::new(plugin) }
}

spec fn answer_of(r: Registered) -> Answer {
    |cmd: CopyCommand| r.plugin.spec_handle(cmd)
}

/// Registry that holds all plugins and dispatches commands.
pub struct PluginRegistry {
    plugins: Vec<Registered>,
}

impl View for PluginRegistry {
    type V = Seq<Answer>;

    /// How each registered plugin answers, in registration order.
    closed spec fn view(&self) -> Seq<Answer> {
        self.plugins@.map_values(|r: Registered| answer_of(r))
    }
}

impl PluginRegistry {
    pub fn new() -> (r: Self)
        ensures
            r@ == Seq::<Answer>::empty(),
    {
        let r = PluginRegistry { plugins: Vec::new() };
        assert(r@ =~= Seq::<Answer>::empty());
        r
    }

    /// Registers a plugin after those already present.
    pub fn register<P: Plugin + 'static>(&mut self, plugin: P)
        ensures
            final(self)@ == old(self)@.push(|cmd: CopyCommand| plugin.spec_handle(cmd)),
    {
        let e = registered(plugin);
        assert(answer_of(e) =~= (|cmd: CopyCommand| plugin.spec_handle(cmd)));
        self.plugins.push(e);
        assert(self@ =~= old(self)@.push(|cmd: CopyCommand| plugin.spec_handle(cmd)));
    }

    /// Dispatches a command to all plugins in registration order and
    /// returns the first error, if any.
    pub fn dispatch(&self, cmd: &CopyCommand) -> (r: Result<(), String>)
        ensures
            r == dispatch_outcome(self@, *cmd),
    {
        let n = self.plugins.len();
        let mut i: usize = 0;
        assert(self@.skip(0) =~= self@);
        while i < n
            invariant
                n == self@.len(),
                i <= n,
                dispatch_outcome(self@, *cmd) == dispatch_outcome(self@.skip(i as int), *cmd),
            decreases n - i,
        {
            let r = self.plugins[i].plugin.handle(cmd);
            assert(self@.skip(i as int).drop_first() =~= self@.skip(i + 1));
            assert(self@.skip(i as int)[0] == answer_of(self.plugins@[i as int]));
            if r.is_err() {
                return r;
            }
            i += 1;
        }
        Ok(())
    }

    /// Number of registered plugins.
    pub fn len(&self) -> (r: usize)
        ensures
            r == self@.len(),
    {
        self.plugins.len()
    }

    pub fn is_empty(&self) -> (r: bool)
        ensures
            r == (self@.len() == 0),
    {
        self.plugins.len() == 0
    }
}

/// A plugin that only reports commands; it accepts every command.
pub struct LogPlugin;

impl Plugin for LogPlugin {
    fn name(&self) -> (r: &str)
        ensures
            r@ == "log"@,
    {
        "log"
    }

    open spec fn spec_handle(&self, cmd: CopyCommand) -> Result<(), String> {
        Ok(())
    }

    fn handle(&self, cmd: &CopyCommand) -> (r: Result<(), String>) {
        Ok(())
    }
}

/// A registry without plugins accepts every command.
pub proof fn lemma_empty_registry_accepts(cmd: CopyCommand)
    ensures
        dispatch_outcome(Seq::<Answer>::empty(), cmd) == Ok::<(), String>(()),
{
}

/// Plugins before the first refusal are all asked and all accept; the
/// refusal is what dispatch answers, whatever the later plugins would say.
pub proof fn lemma_first_refusal_wins(plugins: Seq<Answer>, cmd: CopyCommand, k: int)
    requires
        0 <= k < plugins.len(),
        (plugins[k])(cmd) is Err,
        forall|j: int| 0 <= j < k ==> #[trigger] (plugins[j])(cmd) is Ok,
    ensures
        dispatch_outcome(plugins, cmd) == (plugins[k])(cmd),
    decreases k,
{
    if k > 0 {
        let rest = plugins.drop_first();
        assert((plugins[0])(cmd) is Ok);
        assert forall|j: int| 0 <= j < k - 1 implies #[trigger] (rest[j])(cmd) is Ok by {
            assert(rest[j] == plugins[j + 1]);
        }
        lemma_first_refusal_wins(rest, cmd, k - 1);
    }
}

/// A plugin registered last is asked last: it is asked only when all the
/// earlier ones accept, and then its answer is the registry's.
pub proof fn lemma_registered_last(plugins: Seq<Answer>, last: Answer, cmd: CopyCommand)
    ensures
        dispatch_outcome(plugins, cmd) is Ok ==> dispatch_outcome(plugins.push(last), cmd) == last(cmd),
        dispatch_outcome(plugins, cmd) is Err ==> dispatch_outcome(plugins.push(last), cmd)
            == dispatch_outcome(plugins, cmd),
    decreases plugins.len(),
{
    if plugins.len() == 0 {
        assert(plugins.push(last).drop_first() =~= Seq::<Answer>::empty());
        assert(plugins.push(last)[0] == last);
        assert(dispatch_outcome(plugins.push(last).drop_first(), cmd) == Ok::<(), String>(()));
        if last(cmd) is Ok {
            let u = last(cmd)->Ok_0;
            assert(u == ());
        }
    } else {
        assert(plugins.push(last).drop_first() =~= plugins.drop_first().push(last));
        assert(plugins.push(last)[0] == plugins[0]);
        lemma_registered_last(plugins.drop_first(), last, cmd);
        if (plugins[0])(cmd) is Ok {
            assert(dispatch_outcome(plugins, cmd) == dispatch_outcome(plugins.drop_first(), cmd));
            assert(dispatch_outcome(plugins.push(last), cmd) == dispatch_outcome(plugins.drop_first().push(last), cmd));
        }
    }
}

/// When every plugin accepts, dispatch accepts.
pub proof fn lemma_all_accept(plugins: Seq<Answer>, cmd: CopyCommand)
    requires
        forall|j: int| 0 <= j < plugins.len() ==> #[trigger] (plugins[j])(cmd) is Ok,
    ensures
        dispatch_outcome(plugins, cmd) == Ok::<(), String>(()),
    decreases plugins.len(),
{
    if plugins.len() > 0 {
        let rest = plugins.drop_first();
        assert((plugins[0])(cmd) is Ok);
        assert forall|j: int| 0 <= j < rest.len() implies #[trigger] (rest[j])(cmd) is Ok by {
            assert(rest[j] == plugins[j + 1]);
        }
        lemma_all_accept(rest, cmd);
    }
}

} // verus!
