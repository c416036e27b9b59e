//! What makes up a runtime.

use vstd::prelude::*;
use crate::cbor::Encode;
use crate::context::{Context, ContextView};
use crate::module::{
    AuthHandler, BlockHandler, InvariantHandler, MethodHandler, MigrationHandler,
};
use crate::modules::core_module;
use crate::modules::core_module::types::Metadata;
use crate::storage::concat;
use crate::storage::typed::{get_typed, insert_typed, is_typed_read, stored_form};

verus! {

/// A runtime: its modules in the order in which they are asked, and the
/// state that it starts from.
pub trait Runtime {
    /// The modules of the runtime.
    type Modules: AuthHandler + MigrationHandler + MethodHandler + BlockHandler + InvariantHandler;

    /// The most storage prefixes that are fetched ahead of a batch; 0
    /// where nothing is fetched ahead.
    fn prefetch_limit() -> u16;

    /// The genesis state of the modules.
    fn genesis_state() -> <Self::Modules as MigrationHandler>::Genesis;

    /// Brings the state up to the versions of the modules: reads the
    /// recorded versions, lets every module initialise or migrate its
    /// state, and records the versions again where a module changed them.
    fn migrate<C: Context>(ctx: &mut C)
        ensures
            is_migrated::<Self::Modules>(old(ctx).snapshot(), final(ctx).snapshot()),
            old(ctx).snapshot().keeps_slots(final(ctx).snapshot()),
    {
        let key = metadata_key();
        let stored: Option<Metadata> = get_typed(&*ctx, key.as_slice());
        let ghost found = stored;
        let mut metadata: Metadata = match stored {
            Some(metadata) => metadata,
            None => Metadata::new(),
        };
        let ghost start = metadata;
        let genesis = Self::genesis_state();
        let ghost given = genesis;
        let has_changes = <Self::Modules as MigrationHandler>::init_or_migrate(
            ctx,
            &mut metadata,
            genesis,
        );
        let ghost mid = ctx.snapshot();
        let ghost meta = metadata;
        if has_changes {
            insert_typed(ctx, key.as_slice(), metadata);
        }
        assert(is_migration::<Self::Modules>(
            old(ctx).snapshot(),
            found,
            start,
            given,
            mid,
            meta,
            has_changes,
            ctx.snapshot(),
        ));
    }
}

/// The state is brought up to the versions of the modules.
pub open spec fn is_migrated<M: MigrationHandler>(before: ContextView, after: ContextView) -> bool {
    exists|
        stored: Option<Metadata>,
        start: Metadata,
        genesis: M::Genesis,
        mid: ContextView,
        meta: Metadata,
        changed: bool,
    | #[trigger] is_migration::<M>(before, stored, start, genesis, mid, meta, changed, after)
}

/// How a state is brought up to the versions of the modules. The
/// recorded versions are read, and where there is no record the modules
/// start from an empty one. The modules initialise or migrate their
/// state, which leaves the context as `mid` and the versions as `meta`.
/// Where they say that the versions have changed, the versions are
/// recorded again, if they have an encoding.
pub open spec fn is_migration<M: MigrationHandler>(
    before: ContextView,
    stored: Option<Metadata>,
    start: Metadata,
    genesis: M::Genesis,
    mid: ContextView,
    meta: Metadata,
    changed: bool,
    after: ContextView,
) -> bool {
    &&& is_typed_read(before.state, core_module::state_key(core_module::METADATA@), stored)
    &&& match stored {
        Some(recorded) => start == recorded,
        None => start.versions@.len() == 0,
    }
    &&& M::migrates(before, start, genesis, mid, meta, changed)
    &&& after == if changed {
        match stored_form(meta.encoded()) {
            Some(bytes) => mid.with_state(
                mid.state.insert(core_module::state_key(core_module::METADATA@), bytes),
            ),
            None => mid,
        }
    } else {
        mid
    }
}

/// The state key under which the metadata is kept.
pub fn metadata_key() -> (key: Vec<u8>)
    ensures
        key@ == core_module::state_key(core_module::METADATA@),
{
    concat(core_module::MODULE_NAME.as_bytes(), core_module::METADATA.as_slice())
}

} // verus!
