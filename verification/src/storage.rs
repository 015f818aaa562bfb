use vstd::prelude::*;
use vstd::string::StringExecFns;

use crate::errors::ExecError;
use crate::text::str_equal;

verus! {

/// The storage tiers a table registration can address.
#[derive(Debug, Clone, Copy, PartialEq, Eq, Structural)]
pub enum StorageKind {
    /// Ephemeral shared cache.
    Memory,
    /// Write-ahead staging.
    Wal,
    /// Scratch/temp files, already resident.
    Tmpfs,
    /// The durable object store reached through the default scheme.
    Remote,
}

/// URL scheme of one storage tier.
pub open spec fn spec_scheme(kind: StorageKind) -> Seq<char> {
    match kind {
        StorageKind::Memory => "memory"@,
        StorageKind::Wal => "wal"@,
        StorageKind::Tmpfs => "tmpfs"@,
        StorageKind::Remote => "file"@,
    }
}

/// Whether registering a table on this tier stages its file list first.
/// Scratch files are already resident, and the durable store is never staged.
pub open spec fn spec_needs_staging(kind: StorageKind) -> bool {
    kind == StorageKind::Memory || kind == StorageKind::Wal
}

/// Exec mirror of [`spec_needs_staging`].
pub fn needs_staging(kind: StorageKind) -> (r: bool)
    ensures
        r == spec_needs_staging(kind),
{
    match kind {
        StorageKind::Memory => true,
        StorageKind::Wal => true,
        StorageKind::Tmpfs => false,
        StorageKind::Remote => false,
    }
}

/// The deterministic URL prefix a registration's files are listed under.
/// The ephemeral and staging tiers bucket by schema key; scratch files sit
/// directly under the session.
pub open spec fn spec_table_prefix(kind: StorageKind, session_id: Seq<char>, schema_key: Seq<char>) -> Seq<char> {
    match kind {
        StorageKind::Memory => "memory:///"@ + session_id + "/schema="@ + schema_key + "/"@,
        StorageKind::Wal => "wal:///"@ + session_id + "/schema="@ + schema_key + "/"@,
        StorageKind::Tmpfs => "tmpfs:///"@ + session_id + "/"@,
        StorageKind::Remote => Seq::empty(),
    }
}

/// Builds the listing URL prefix for one table registration.
///
/// Only the ephemeral, staging and scratch tiers are valid here; naming the
/// durable store is the caller's bug and fails fatally.
pub fn table_prefix(kind: StorageKind, session_id: &str, schema_key: &str) -> (r: Result<
    String,
    ExecError,
>)
    ensures
        r is Ok <==> kind != StorageKind::Remote,
        kind == StorageKind::Remote ==> r == Err::<String, ExecError>(
            ExecError::UnsupportedStorageBackend,
        ),
        r matches Ok(p) ==> p@ == spec_table_prefix(kind, session_id@, schema_key@),
{
    match kind {
        StorageKind::Memory => {
            let mut s = String::from_str("memory:///");
            s.append(session_id);
            s.append("/schema=");
            s.append(schema_key);
            s.append("/");
            proof {
                assert(s@ =~= spec_table_prefix(kind, session_id@, schema_key@));
            }
            Ok(s)
        },
        StorageKind::Wal => {
            let mut s = String::from_str("wal:///");
            s.append(session_id);
            s.append("/schema=");
            s.append(schema_key);
            s.append("/");
            proof {
                assert(s@ =~= spec_table_prefix(kind, session_id@, schema_key@));
            }
            Ok(s)
        },
        StorageKind::Tmpfs => {
            let mut s = String::from_str("tmpfs:///");
            s.append(session_id);
            s.append("/");
            proof {
                assert(s@ =~= spec_table_prefix(kind, session_id@, schema_key@));
            }
            Ok(s)
        },
        StorageKind::Remote => Err(ExecError::UnsupportedStorageBackend),
    }
}

/// One scheme-to-backend binding of the fabric.
pub struct StoreEntry {
    /// URL scheme the backend answers for.
    pub scheme: String,
    /// The backend bound to the scheme.
    pub kind: StorageKind,
}

/// Which backend a scheme resolves to, scanning the newest binding first.
pub open spec fn spec_lookup_scheme(entries: Seq<StoreEntry>, s: Seq<char>) -> Option<StorageKind>
    decreases entries.len(),
{
    if entries.len() == 0 {
        None
    } else if entries.last().scheme@ == s {
        Some(entries.last().kind)
    } else {
        spec_lookup_scheme(entries.drop_last(), s)
    }
}

/// The per-context store registry: routes a URL scheme to a backend.
pub struct StoreRegistry {
    entries: Vec<StoreEntry>,
}

impl StoreRegistry {
    /// Which backend this registry resolves a scheme to.
    pub closed spec fn spec_resolve(self, s: Seq<char>) -> Option<StorageKind> {
        spec_lookup_scheme(self.entries@, s)
    }

    /// An empty registry resolves nothing.
    pub fn new() -> (r: StoreRegistry)
        ensures
            forall|s: Seq<char>| r.spec_resolve(s) == None::<StorageKind>,
    {
        StoreRegistry { entries: Vec::new() }
    }

    /// Binds a scheme to a backend. Registering a scheme that is already
    /// bound leaves the registry unchanged, so repeated registration is
    /// idempotent; every other scheme keeps its binding.
    pub fn register(&mut self, scheme: String, kind: StorageKind)
        ensures
            final(self).spec_resolve(scheme@) == (if old(self).spec_resolve(scheme@) is Some {
                old(self).spec_resolve(scheme@)
            } else {
                Some(kind)
            }),
            forall|s: Seq<char>|
                s != scheme@ ==> final(self).spec_resolve(s) == old(self).spec_resolve(s),
    {
        let bound = match self.resolve_kind(scheme.as_str()) {
            Ok(_) => true,
            Err(_) => false,
        };
        if !bound {
            let ghost before = self.entries@;
            self.entries.push(StoreEntry { scheme, kind });
            proof {
                assert(self.entries@.drop_last() =~= before);
            }
        }
    }

    /// Resolves a scheme to its backend; an unregistered scheme is an
    /// unsupported backend.
    pub fn resolve_kind(&self, scheme: &str) -> (r: Result<StorageKind, ExecError>)
        ensures
            r matches Ok(k) ==> self.spec_resolve(scheme@) == Some(k),
            r is Err <==> self.spec_resolve(scheme@) is None,
            r is Err ==> r == Err::<StorageKind, ExecError>(ExecError::UnsupportedStorageBackend),
    {
        let n = self.entries.len();
        let mut i: usize = n;
        proof {
            assert(self.entries@.take(n as int) =~= self.entries@);
        }
        while i > 0
            invariant
                i <= n,
                n == self.entries@.len(),
                spec_lookup_scheme(self.entries@, scheme@) == spec_lookup_scheme(
                    self.entries@.take(i as int),
                    scheme@,
                ),
            decreases i,
        {
            let e = &self.entries[i - 1];
            let ghost prefix = self.entries@.take(i as int);
            proof {
                assert(prefix.len() == i);
                assert(prefix.last() == self.entries@[i as int - 1]);
                assert(prefix.drop_last() =~= self.entries@.take(i as int - 1));
            }
            if str_equal(e.scheme.as_str(), scheme) {
                return Ok(e.kind);
            }
            i = i - 1;
        }
        proof {
            assert(self.entries@.take(0) =~= Seq::<StoreEntry>::empty());
        }
        Err(ExecError::UnsupportedStorageBackend)
    }
}

} // verus!
