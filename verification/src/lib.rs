//! A safety layer between a host that offers its functions through native
//! handles and the commands of a module that the host loads.
//!
//! Every call to the host goes through a session, [`redis::Redis`], which
//! keeps account of the handles that the host hands out and gives every one
//! of them back exactly once.
pub mod error;
pub mod redis;
pub use crate::error::RModError;
pub use crate::redis::raw;
pub use crate::redis::Command;

use crate::redis::raw::Exchange;
use crate::redis::raw::Host;
use crate::redis::raw::RedisModuleCmdFunc;
use crate::redis::raw::RedisModuleCtx;
use crate::redis::raw::Status;
use crate::redis::text::c_string;
use crate::redis::text::nul_terminated;
use crate::redis::Redis;
use vstd::prelude::*;

verus! {

/// What a module announces of itself when the host loads it.
pub struct RedisModuleInitializer {
    module_name: &'static str,
    module_version: i32,
}

/// The call that announces a module.
pub open spec fn init_call(
    ctx: RedisModuleCtx,
    name: Seq<char>,
    version: i32,
    status: Status,
) -> Exchange {
    Exchange::Init {
        ctx,
        modulename: nul_terminated(name),
        module_version: version,
        api_version: raw::REDISMODULE_APIVER_1,
        status,
    }
}

impl RedisModuleInitializer {
    /// The name that the module announces.
    pub closed spec fn name(&self) -> Seq<char> {
        self.module_name@
    }

    /// The version that the module announces.
    pub closed spec fn version(&self) -> i32 {
        self.module_version
    }

    pub fn new(mod_name: &'static str, mod_ver: i32) -> (initializer: Self)
        ensures
            initializer.name() == mod_name@,
            initializer.version() == mod_ver,
    {
        RedisModuleInitializer { module_name: mod_name, module_version: mod_ver }
    }

    /// Announces the module to the host and hands back the host's answer.
    pub fn run<H: Host>(&self, r: &mut Redis<H>) -> (status: Status)
        ensures
            final(r).after(
                old(r),
                seq![init_call(old(r).ctx(), self.name(), self.version(), status)],
            ),
            final(r).outstanding() == old(r).outstanding(),
    {
        let name = c_string(self.module_name);
        let status = r.host_init(name.as_slice(), self.module_version, raw::REDISMODULE_APIVER_1);
        proof {
            let e = init_call(old(r).ctx(), self.name(), self.version(), status);
            assert(old(r).trace().push(e) =~= old(r).trace() + seq![e]);
        }
        status
    }
}

/// One line of the table of commands: the name of a command, its flags and
/// its entry point.
pub struct Registration {
    pub name: String,
    pub flags: String,
    pub entry: RedisModuleCmdFunc,
}

/// The call that registers a command. The host cannot tell from the
/// arguments of these commands which of them are keys, so the three positions
/// that would say so are zero.
pub open spec fn create_command_call(
    ctx: RedisModuleCtx,
    registration: Registration,
    status: Status,
) -> Exchange {
    Exchange::CreateCommand {
        ctx,
        name: nul_terminated(registration.name@),
        cmdfunc: Some(registration.entry),
        strflags: nul_terminated(registration.flags@),
        firstkey: 0,
        lastkey: 0,
        keystep: 0,
        status,
    }
}

/// The calls of a load on which the host answered the announcement with
/// `announced` and the registrations, in order, with `answers`.
pub open spec fn load_calls(
    ctx: RedisModuleCtx,
    initializer: RedisModuleInitializer,
    table: Seq<Registration>,
    announced: Status,
    answers: Seq<Status>,
) -> Seq<Exchange> {
    seq![init_call(ctx, initializer.name(), initializer.version(), announced)] + Seq::new(
        answers.len(),
        |i: int| create_command_call(ctx, table[i], answers[i]),
    )
}

/// Whether a load can have got these answers and ended in `status`. Nothing
/// is registered after a refused announcement; the commands are registered
/// in order, up to the first that the host refuses; and the load succeeds
/// only where the host refused nothing.
pub open spec fn load_result(
    table: Seq<Registration>,
    announced: Status,
    answers: Seq<Status>,
    status: Status,
) -> bool {
    &&& answers.len() <= table.len()
    &&& forall|i: int| 0 <= i < answers.len() - 1 ==> #[trigger] answers[i] == Status::Success
    &&& announced == Status::Failure ==> answers.len() == 0 && status == Status::Failure
    &&& announced == Status::Success ==> if answers.len() > 0 && answers.last()
        == Status::Failure {
        status == Status::Failure
    } else {
        status == Status::Success && answers.len() == table.len()
    }
}

/// Loads the module: announces it, then registers the commands of `table`
/// in order. The first refusal by the host ends the load.
pub fn load<H: Host>(
    r: &mut Redis<H>,
    initializer: &RedisModuleInitializer,
    table: &[Registration],
) -> (status: Status)
    ensures
        exists|announced: Status, answers: Seq<Status>|
            {
                &&& final(r).after(
                    old(r),
                    #[trigger] load_calls(old(r).ctx(), *initializer, table@, announced, answers),
                )
                &&& load_result(table@, announced, answers, status)
            },
        final(r).outstanding() == old(r).outstanding(),
{
    let ghost ctx = r.ctx();
    let announced = initializer.run(r);
    let ghost base = r.trace();
    let ghost mut answers: Seq<Status> = Seq::empty();
    proof {
        assert(base =~= old(r).trace() + load_calls(ctx, *initializer, table@, announced, answers));
    }
    if announced == Status::Failure {
        return Status::Failure;
    }
    let mut i: usize = 0;
    while i < table.len()
        invariant
            i <= table@.len(),
            answers.len() == i,
            ctx == old(r).ctx(),
            r.ctx() == ctx,
            announced == Status::Success,
            r.outstanding() == old(r).outstanding(),
            r.trace() == old(r).trace() + load_calls(ctx, *initializer, table@, announced, answers),
            forall|j: int| 0 <= j < i ==> #[trigger] answers[j] == Status::Success,
        decreases table@.len() - i,
    {
        let name = c_string(table[i].name.as_str());
        let flags = c_string(table[i].flags.as_str());
        let ghost so_far = r.trace();
        let status = r.host_create_command(
            name.as_slice(),
            Some(table[i].entry),
            flags.as_slice(),
            0,
            0,
            0,
        );
        proof {
            let all = answers.push(status);
            assert(r.trace() =~= old(r).trace() + load_calls(
                ctx,
                *initializer,
                table@,
                announced,
                all,
            ));
            answers = all;
        }
        if status == Status::Failure {
            return Status::Failure;
        }
        i += 1;
    }
    Status::Success
}

} // verus!
