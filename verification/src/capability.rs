//! Capabilities a package may request, and the user-owned grants that allow them.

use vstd::prelude::*;

verus! {

/// Flag bit of the `SYSTEM_METRICS` capability.
pub const SYSTEM_METRICS: u32 = 1;

/// Flag bit of the `MEDIA_CONTROL` capability.
pub const MEDIA_CONTROL: u32 = 2;

/// Flag bit of the `NETWORK` capability.
pub const NETWORK: u32 = 4;

/// Flag bit of the `INSTANCE_STORAGE` capability.
pub const INSTANCE_STORAGE: u32 = 8;

/// Flag bit of the `CLIPBOARD_READ` capability.
pub const CLIPBOARD_READ: u32 = 16;

/// Flag bit of the `CLIPBOARD_WRITE` capability.
pub const CLIPBOARD_WRITE: u32 = 32;

/// Flag bit of the `OPEN_URI` capability.
pub const OPEN_URI: u32 = 64;

/// Flag bit of the `SPAWN_PROCESS` capability.
pub const SPAWN_PROCESS: u32 = 128;

/// Set of granted capability flags, one bit per capability kind.
#[derive(Debug, Clone, Copy, PartialEq, Eq, Structural)]
pub struct CapabilitySet {
    pub bits: u32,
}

impl CapabilitySet {
    /// The set holding only the `SYSTEM_METRICS` flag.
    pub fn system_metrics() -> (res: CapabilitySet)
        ensures
            res.bits == SYSTEM_METRICS,
    {
        CapabilitySet { bits: SYSTEM_METRICS }
    }

    /// The set holding only the `MEDIA_CONTROL` flag.
    pub fn media_control() -> (res: CapabilitySet)
        ensures
            res.bits == MEDIA_CONTROL,
    {
        CapabilitySet { bits: MEDIA_CONTROL }
    }

    /// The set holding only the `NETWORK` flag.
    pub fn network() -> (res: CapabilitySet)
        ensures
            res.bits == NETWORK,
    {
        CapabilitySet { bits: NETWORK }
    }

    /// The set holding only the `INSTANCE_STORAGE` flag.
    pub fn instance_storage() -> (res: CapabilitySet)
        ensures
            res.bits == INSTANCE_STORAGE,
    {
        CapabilitySet { bits: INSTANCE_STORAGE }
    }

    /// The set holding only the `CLIPBOARD_READ` flag.
    pub fn clipboard_read() -> (res: CapabilitySet)
        ensures
            res.bits == CLIPBOARD_READ,
    {
        CapabilitySet { bits: CLIPBOARD_READ }
    }

    /// The set holding only the `CLIPBOARD_WRITE` flag.
    pub fn clipboard_write() -> (res: CapabilitySet)
        ensures
            res.bits == CLIPBOARD_WRITE,
    {
        CapabilitySet { bits: CLIPBOARD_WRITE }
    }

    /// The set holding only the `OPEN_URI` flag.
    pub fn open_uri() -> (res: CapabilitySet)
        ensures
            res.bits == OPEN_URI,
    {
        CapabilitySet { bits: OPEN_URI }
    }

    /// The set holding only the `SPAWN_PROCESS` flag.
    pub fn spawn_process() -> (res: CapabilitySet)
        ensures
            res.bits == SPAWN_PROCESS,
    {
        CapabilitySet { bits: SPAWN_PROCESS }
    }

    /// Whether flag number `index` is present.
    pub open spec fn has_flag(self, index: u32) -> bool {
        (self.bits >> index) & 1u32 == 1u32
    }

    /// Every flag of `other` is also present in `self`.
    pub open spec fn includes(self, other: CapabilitySet) -> bool {
        self.bits & other.bits == other.bits
    }

    /// The set with no flags.
    pub fn empty() -> (res: CapabilitySet)
        ensures
            res.bits == 0,
            forall|i: u32| i < 32 ==> !#[trigger] res.has_flag(i),
    {
        proof {
            assert forall|i: u32| i < 32 implies !((0u32 >> i) & 1u32 == 1u32) by {
                assert((0u32 >> i) & 1u32 == 0u32) by (bit_vector);
            }
        }
        CapabilitySet { bits: 0 }
    }

    /// The set with every defined flag.
    pub fn all() -> (res: CapabilitySet)
        ensures
            res.bits == 255,
            forall|i: u32| i < 8 ==> #[trigger] res.has_flag(i),
            forall|i: u32| 8 <= i < 32 ==> !#[trigger] res.has_flag(i),
    {
        proof {
            assert forall|i: u32| i < 8 implies (255u32 >> i) & 1u32 == 1u32 by {
                assert((255u32 >> i) & 1u32 == 1u32) by (bit_vector)
                    requires
                        i < 8,
                ;
            }
            assert forall|i: u32| 8 <= i < 32 implies !((255u32 >> i) & 1u32 == 1u32) by {
                assert((255u32 >> i) & 1u32 == 0u32) by (bit_vector)
                    requires
                        8 <= i < 32,
                ;
            }
        }
        CapabilitySet { bits: 255 }
    }

    /// Raw flag bits.
    pub fn bits(&self) -> (res: u32)
        ensures
            res == self.bits,
    {
        self.bits
    }

    /// Builds a set from raw flag bits.
    pub fn from_bits_retain(bits: u32) -> (res: CapabilitySet)
        ensures
            res.bits == bits,
    {
        CapabilitySet { bits }
    }

    /// Whether every flag of `other` is present in `self`.
    pub fn contains(&self, other: CapabilitySet) -> (res: bool)
        ensures
            res == self.includes(other),
    {
        self.bits & other.bits == other.bits
    }

    /// Union of two flag sets.
    pub fn union(&self, other: CapabilitySet) -> (res: CapabilitySet)
        ensures
            res.bits == self.bits | other.bits,
            res.includes(*self),
            res.includes(other),
    {
        let a = self.bits;
        let b = other.bits;
        assert((a | b) & a == a) by (bit_vector);
        assert((a | b) & b == b) by (bit_vector);
        CapabilitySet { bits: a | b }
    }
}

/// A single-flag set includes exactly the sets whose own flag it is.
pub proof fn lemma_single_flag(set: CapabilitySet, index: u32)
    requires
        index < 32,
    ensures
        set.includes(CapabilitySet { bits: 1u32 << index }) == set.has_flag(index),
{
    let b = set.bits;
    assert(((b & (1u32 << index)) == (1u32 << index)) == ((b >> index) & 1u32 == 1u32))
        by (bit_vector)
        requires index < 32;
}

/// A host operation a widget package may request.
#[derive(Debug, Clone, PartialEq, Eq, PartialOrd, Ord)]
pub enum Capability {
    SystemMetrics,
    MediaControl,
    Network { hosts: Vec<String> },
    InstanceStorage,
    ClipboardRead,
    ClipboardWrite,
    OpenUri,
    SpawnProcess,
}

impl Capability {
    /// The flag number that stands for this capability kind.
    pub open spec fn flag_index(&self) -> u32 {
        match self {
            Capability::SystemMetrics => 0,
            Capability::MediaControl => 1,
            Capability::Network { .. } => 2,
            Capability::InstanceStorage => 3,
            Capability::ClipboardRead => 4,
            Capability::ClipboardWrite => 5,
            Capability::OpenUri => 6,
            Capability::SpawnProcess => 7,
        }
    }

    /// Converts a manifest capability to its runtime bit.
    pub fn bit(&self) -> (res: CapabilitySet)
        ensures
            res.bits == 1u32 << self.flag_index(),
    {
        proof {
            assert(1u32 << 0u32 == 1u32) by (bit_vector);
            assert(1u32 << 1u32 == 2u32) by (bit_vector);
            assert(1u32 << 2u32 == 4u32) by (bit_vector);
            assert(1u32 << 3u32 == 8u32) by (bit_vector);
            assert(1u32 << 4u32 == 16u32) by (bit_vector);
            assert(1u32 << 5u32 == 32u32) by (bit_vector);
            assert(1u32 << 6u32 == 64u32) by (bit_vector);
            assert(1u32 << 7u32 == 128u32) by (bit_vector);
        }
        match self {
            Capability::SystemMetrics => CapabilitySet::system_metrics(),
            Capability::MediaControl => CapabilitySet::media_control(),
            Capability::Network { .. } => CapabilitySet::network(),
            Capability::InstanceStorage => CapabilitySet::instance_storage(),
            Capability::ClipboardRead => CapabilitySet::clipboard_read(),
            Capability::ClipboardWrite => CapabilitySet::clipboard_write(),
            Capability::OpenUri => CapabilitySet::open_uri(),
            Capability::SpawnProcess => CapabilitySet::spawn_process(),
        }
    }

    /// Returns whether the capability requires an explicit warning during installation.
    pub fn is_dangerous(&self) -> (res: bool)
        ensures
            res == (self is SpawnProcess || self is ClipboardRead),
    {
        matches!(self, Capability::SpawnProcess | Capability::ClipboardRead)
    }
}

/// `host` occurs in the allowlist.
pub open spec fn host_listed(allowlist: Seq<String>, host: Seq<char>) -> bool {
    exists|j: int| 0 <= j < allowlist.len() && #[trigger] allowlist[j]@ == host
}

/// Every requested host occurs in the allowlist.
pub open spec fn hosts_allowed(requested: Seq<String>, allowlist: Seq<String>) -> bool {
    forall|i: int| 0 <= i < requested.len() ==> #[trigger] host_listed(allowlist, requested[i]@)
}

/// User-owned permission state, stored outside a package archive.
#[derive(Debug, Clone, PartialEq, Eq)]
pub struct CapabilityGrant {
    pub package_id: String,
    pub granted: CapabilitySet,
    pub network_hosts: Vec<String>,
}

impl CapabilityGrant {
    /// Whether this grant allows `capability`: its flag is granted and, for networking,
    /// every requested host is on the allowlist.
    pub open spec fn permits(&self, capability: &Capability) -> bool {
        &&& self.granted.has_flag(capability.flag_index())
        &&& match capability {
            Capability::Network { hosts } => hosts_allowed(hosts@, self.network_hosts@),
            _ => true,
        }
    }

    /// Creates an empty deny-by-default grant.
    pub fn denied(package_id: &str) -> (res: CapabilityGrant)
        ensures
            res.package_id@ == package_id@,
            res.granted.bits == 0,
            res.network_hosts@.len() == 0,
    {
        CapabilityGrant {
            package_id: String::from_str(package_id),
            granted: CapabilitySet::empty(),
            network_hosts: Vec::new(),
        }
    }

    /// Checks both the capability bit and, for networking, the declared host allowlist.
    pub fn allows(&self, capability: &Capability) -> (res: bool)
        ensures
            res == self.permits(capability),
            res == match *capability {
            Capability::SystemMetrics => self.granted.bits & SYSTEM_METRICS == SYSTEM_METRICS,
            Capability::MediaControl => self.granted.bits & MEDIA_CONTROL == MEDIA_CONTROL,
            Capability::Network { hosts } => self.granted.bits & NETWORK == NETWORK && forall|i: int|
                0 <= i < hosts@.len() ==> #[trigger] host_listed(self.network_hosts@, hosts@[i]@),
            Capability::InstanceStorage => self.granted.bits & INSTANCE_STORAGE
                == INSTANCE_STORAGE,
            Capability::ClipboardRead => self.granted.bits & CLIPBOARD_READ == CLIPBOARD_READ,
            Capability::ClipboardWrite => self.granted.bits & CLIPBOARD_WRITE == CLIPBOARD_WRITE,
            Capability::OpenUri => self.granted.bits & OPEN_URI == OPEN_URI,
            Capability::SpawnProcess => self.granted.bits & SPAWN_PROCESS == SPAWN_PROCESS,
        },
    {
        proof {
            lemma_single_flag(self.granted, capability.flag_index());
            lemma_grant_allows_by_flag(*self, *capability);
        }
        if !self.granted.contains(capability.bit()) {
            return false;
        }
        match capability {
            Capability::Network { hosts } => {
                let mut i: usize = 0;
                while i < hosts.len()
                    invariant
                        i <= hosts@.len(),
                        *capability == (Capability::Network { hosts: *hosts }),
                        self.granted.has_flag(capability.flag_index()),
                        hosts_allowed(hosts@.take(i as int), self.network_hosts@),
                    decreases hosts@.len() - i,
                {
                    let host = &hosts[i];
                    let mut found = false;
                    let mut j: usize = 0;
                    while j < self.network_hosts.len()
                        invariant
                            j <= self.network_hosts@.len(),
                            found ==> exists|k: int|
                                0 <= k < self.network_hosts@.len()
                                    && #[trigger] self.network_hosts@[k]@ == host@,
                            !found ==> forall|k: int|
                                0 <= k < j ==> #[trigger] self.network_hosts@[k]@ != host@,
                        decreases self.network_hosts@.len() - j,
                    {
                        if self.network_hosts[j] == *host {
                            found = true;
                        }
                        j = j + 1;
                    }
                    if !found {
                        assert(!hosts_allowed(hosts@, self.network_hosts@)) by {
                            let requested = hosts@[i as int];
                            assert(requested == *host);
                            if hosts_allowed(hosts@, self.network_hosts@) {
                                assert(host_listed(self.network_hosts@, requested@));
                                let k = choose|k: int|
                                    0 <= k < self.network_hosts@.len()
                                        && #[trigger] self.network_hosts@[k]@ == requested@;
                                assert(self.network_hosts@[k]@ != host@);
                            }
                        }
                        return false;
                    }
                    assert forall|a: int| 0 <= a < i + 1 implies #[trigger] host_listed(
                        self.network_hosts@,
                        hosts@.take(i + 1)[a]@,
                    ) by {
                        if a < i {
                            assert(hosts@.take(i + 1)[a] == hosts@.take(i as int)[a]);
                            assert(host_listed(self.network_hosts@, hosts@.take(i as int)[a]@));
                        } else {
                            assert(hosts@.take(i + 1)[a] == *host);
                        }
                    }
                    i = i + 1;
                }
                assert(hosts@.take(hosts@.len() as int) =~= hosts@);
                true
            },
            _ => true,
        }
    }
}

/// A grant with no flags allows no capability at all.
pub proof fn lemma_empty_grant_allows_nothing(grant: CapabilityGrant, capability: Capability)
    requires
        grant.granted.bits == 0,
    ensures
        !grant.permits(&capability),
{
    let i = capability.flag_index();
    assert((0u32 >> i) & 1u32 == 0u32) by (bit_vector);
}

/// A capability is allowed only when its own flag is granted, whatever the allowlist holds.
pub proof fn lemma_allowed_needs_flag(grant: CapabilityGrant, capability: Capability)
    requires
        grant.permits(&capability),
    ensures
        grant.granted.includes(capability.bit_set()),
{
    lemma_single_flag(grant.granted, capability.flag_index());
}

/// Allowlists chain: every host allowed by `middle`, whose own hosts `allowlist` all
/// allows, is allowed by `allowlist`.
proof fn lemma_hosts_allowed_transitive(requested: Seq<String>, middle: Seq<String>, allowlist: Seq<String>)
    requires
        hosts_allowed(requested, middle),
        hosts_allowed(middle, allowlist),
    ensures
        hosts_allowed(requested, allowlist),
{
    assert forall|i: int| 0 <= i < requested.len() implies #[trigger] host_listed(
        allowlist,
        requested[i]@,
    ) by {
        assert(host_listed(middle, requested[i]@));
        let a = choose|a: int| 0 <= a < middle.len() && #[trigger] middle[a]@ == requested[i]@;
        assert(host_listed(allowlist, middle[a]@));
        let b = choose|b: int| 0 <= b < allowlist.len() && #[trigger] allowlist[b]@ == middle[a]@;
        assert(allowlist[b]@ == requested[i]@);
    }
}

/// Widening a grant never revokes a capability it allowed: when `wide` holds every flag
/// of `narrow` and every host on the allowlist of `narrow`, it allows whatever `narrow`
/// allows, whichever package either grant names.
pub proof fn lemma_widened_grant_allows(
    narrow: CapabilityGrant,
    wide: CapabilityGrant,
    capability: Capability,
)
    requires
        wide.granted.includes(narrow.granted),
        hosts_allowed(narrow.network_hosts@, wide.network_hosts@),
    ensures
        narrow.permits(&capability) ==> wide.permits(&capability),
{
    let k = capability.flag_index();
    let n = narrow.granted.bits;
    let w = wide.granted.bits;
    assert(((n >> k) & 1u32 == 1u32 && w & n == n) ==> (w >> k) & 1u32 == 1u32) by (bit_vector);
    if narrow.permits(&capability) {
        match capability {
            Capability::Network { hosts } => {
                lemma_hosts_allowed_transitive(hosts@, narrow.network_hosts@, wide.network_hosts@);
            },
            _ => {},
        }
    }
}

/// A grant allows a capability exactly when the capability's own flag is in the granted
/// set, and, for networking alone, every requested host is on the allowlist. Nothing
/// else counts: dangerous capabilities are allowed like any other once granted.
pub proof fn lemma_grant_allows_by_flag(grant: CapabilityGrant, capability: Capability)
    ensures
        grant.permits(&capability) == match capability {
            Capability::SystemMetrics => grant.granted.bits & SYSTEM_METRICS == SYSTEM_METRICS,
            Capability::MediaControl => grant.granted.bits & MEDIA_CONTROL == MEDIA_CONTROL,
            Capability::Network { hosts } => grant.granted.bits & NETWORK == NETWORK && forall|i: int|
                0 <= i < hosts@.len() ==> #[trigger] host_listed(grant.network_hosts@, hosts@[i]@),
            Capability::InstanceStorage => grant.granted.bits & INSTANCE_STORAGE
                == INSTANCE_STORAGE,
            Capability::ClipboardRead => grant.granted.bits & CLIPBOARD_READ == CLIPBOARD_READ,
            Capability::ClipboardWrite => grant.granted.bits & CLIPBOARD_WRITE == CLIPBOARD_WRITE,
            Capability::OpenUri => grant.granted.bits & OPEN_URI == OPEN_URI,
            Capability::SpawnProcess => grant.granted.bits & SPAWN_PROCESS == SPAWN_PROCESS,
        },
{
    let b = grant.granted.bits;
    assert({
        &&& ((b >> 0u32) & 1u32 == 1u32) == (b & 1u32 == 1u32)
        &&& ((b >> 1u32) & 1u32 == 1u32) == (b & 2u32 == 2u32)
        &&& ((b >> 2u32) & 1u32 == 1u32) == (b & 4u32 == 4u32)
        &&& ((b >> 3u32) & 1u32 == 1u32) == (b & 8u32 == 8u32)
        &&& ((b >> 4u32) & 1u32 == 1u32) == (b & 16u32 == 16u32)
        &&& ((b >> 5u32) & 1u32 == 1u32) == (b & 32u32 == 32u32)
        &&& ((b >> 6u32) & 1u32 == 1u32) == (b & 64u32 == 64u32)
        &&& ((b >> 7u32) & 1u32 == 1u32) == (b & 128u32 == 128u32)
    }) by (bit_vector);
}

impl Capability {
    /// The single-flag set of this capability kind.
    pub open spec fn bit_set(&self) -> CapabilitySet {
        CapabilitySet { bits: 1u32 << self.flag_index() }
    }
}

} // verus!
