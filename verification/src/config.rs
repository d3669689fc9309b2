//! Configuration data and round-robin rotation state.
//!
//! A [`Config`] owns an ordered list of gateway credentials and, per named
//! provider, an ordered list of API keys.  Selection among each list is a
//! blind round robin driven by an ever-incrementing counter taken modulo
//! the list length; the counters wrap at the integer bound exactly like the
//! fetch-and-increment they model.

use vstd::prelude::*;
use vstd::string::*;

verus! {

/// One configured gateway credential: account identifier, gateway
/// identifier, and the bearer token presented to the upstream.
pub struct GatewayConfig {
    pub account_id: String,
    pub gateway_id: String,
    pub token: String,
}

impl Clone for GatewayConfig {
    fn clone(&self) -> (r: Self)
        ensures
            r == *self,
    {
        GatewayConfig {
            account_id: self.account_id.clone(),
            gateway_id: self.gateway_id.clone(),
            token: self.token.clone(),
        }
    }
}

/// The upstream base URL obtained by substituting the account and gateway
/// identifiers into the fixed gateway URL pattern.
pub open spec fn spec_base_url(account_id: Seq<char>, gateway_id: Seq<char>) -> Seq<char> {
    "https://gateway.ai.cloudflare.com/v1/"@ + account_id + "/"@ + gateway_id
}

impl GatewayConfig {
    /// Construct the full gateway URL for this credential.
    pub fn base_url(&self) -> (r: String)
        ensures
            r@ == spec_base_url(self.account_id@, self.gateway_id@),
    {
        let mut url = String::from_str("https://gateway.ai.cloudflare.com/v1/");
        url.append(self.account_id.as_str());
        url.append("/");
        url.append(self.gateway_id.as_str());
        url
    }
}

/// Per-provider configuration: an ordered key list and the model used by
/// the configuration test harness.  A provider with an empty key list
/// participates in no rotation.
pub struct ProviderConfig {
    pub api_keys: Vec<String>,
    pub test_model: String,
}

/// A provider entry as it appears in the configuration file: a provider
/// name together with its settings.
pub struct ProviderEntry {
    pub name: String,
    pub config: ProviderConfig,
}

/// The validated shape of the configuration file, before any rotation
/// state is attached.
pub struct TomlConfig {
    pub host_port: u16,
    pub https_port: u16,
    pub https_server: bool,
    pub tls_cert_path: String,
    pub tls_key_path: String,
    pub gateways: Vec<GatewayConfig>,
    pub providers: Vec<ProviderEntry>,
}

/// A provider key pool with its own independent rotation counter.
pub struct ProviderPool {
    pub name: String,
    pub config: ProviderConfig,
    pub counter: usize,
}

/// Runtime configuration: the gateway list with its rotation counter and
/// one independently counted key pool per provider.
pub struct Config {
    pub http_port: u16,
    pub https_port: u16,
    pub https_server: bool,
    pub tls_cert_path: String,
    pub tls_key_path: String,
    pub gateways: Vec<GatewayConfig>,
    pub providers: Vec<ProviderPool>,
    pub openai_compat_path: String,
    pub gateway_counter: usize,
}

/// The successor of a rotation counter: the counters only ever move by
/// fetch-and-increment, wrapping at the integer bound.
pub open spec fn wrap_inc(c: usize) -> usize {
    if c == usize::MAX {
        0
    } else {
        (c + 1) as usize
    }
}

/// The predecessor of a rotation counter, inverse of [`wrap_inc`].
pub open spec fn wrap_dec(c: usize) -> usize {
    if c == 0 {
        usize::MAX
    } else {
        (c - 1) as usize
    }
}

/// The list index selected by a rotation counter value.
pub open spec fn rotation_index(counter: usize, len: int) -> int
    recommends
        len > 0,
{
    counter as int % len
}

/// The index of the first pool named `name`, or -1 when no pool has that
/// name.
pub open spec fn provider_index(pools: Seq<ProviderPool>, name: Seq<char>) -> int
    decreases pools.len(),
{
    if pools.len() == 0 {
        -1
    } else if pools[0].name@ == name {
        0
    } else {
        let rest = provider_index(pools.skip(1), name);
        if rest == -1 {
            -1
        } else {
            rest + 1
        }
    }
}

/// `provider_index` finds the first pool with the given name: a result of
/// -1 means no pool matches, and a non-negative result is the least
/// matching index.
pub proof fn lemma_provider_index(pools: Seq<ProviderPool>, name: Seq<char>)
    ensures
        provider_index(pools, name) == -1 ==> forall|i: int|
            0 <= i < pools.len() ==> (#[trigger] pools[i]).name@ != name,
        provider_index(pools, name) != -1 ==> {
            let idx = provider_index(pools, name);
            &&& 0 <= idx < pools.len()
            &&& pools[idx].name@ == name
            &&& forall|j: int| 0 <= j < idx ==> (#[trigger] pools[j]).name@ != name
        },
    decreases pools.len(),
{
    if pools.len() > 0 {
        lemma_provider_index(pools.skip(1), name);
        assert forall|i: int| 1 <= i < pools.len() implies pools.skip(1)[i - 1] == pools[i] by {}
    }
}

/// The key that one selection for `name` yields from these pools, or
/// nothing when the provider is absent or its pool is empty.
pub open spec fn spec_api_key_of(pools: Seq<ProviderPool>, name: Seq<char>) -> Option<Seq<char>> {
    let idx = provider_index(pools, name);
    if idx == -1 {
        None
    } else {
        let pool = pools[idx];
        if pool.config.api_keys@.len() == 0 {
            None
        } else {
            Some(
                pool.config.api_keys@[rotation_index(
                    pool.counter,
                    pool.config.api_keys@.len() as int,
                )]@,
            )
        }
    }
}

/// The pools after one selection for `name`: the matching pool's counter
/// stepped when a key was yielded, everything else untouched.
pub open spec fn spec_providers_after(
    pools: Seq<ProviderPool>,
    name: Seq<char>,
) -> Seq<ProviderPool> {
    let idx = provider_index(pools, name);
    if idx == -1 {
        pools
    } else {
        let pool = pools[idx];
        if pool.config.api_keys@.len() == 0 {
            pools
        } else {
            pools.update(
                idx,
                ProviderPool { counter: wrap_inc(pool.counter), name: pool.name, config: pool.config },
            )
        }
    }
}

impl Config {
    /// Construction succeeded only on a configuration with at least one
    /// gateway; every rotation counter starts at zero.
    pub open spec fn wf(&self) -> bool {
        self.gateways@.len() > 0
    }

    /// Build rotation state from a validated configuration.  Fails fast,
    /// with the exact error message below, when no gateway is configured.
    pub fn new(t: TomlConfig) -> (r: Result<Config, String>)
        ensures
            r is Err <==> t.gateways@.len() == 0,
            r is Err ==> r->Err_0@ == "At least one gateway configuration is required"@,
            r is Ok ==> {
                let c = r->Ok_0;
                &&& c.wf()
                &&& c.http_port == t.host_port
                &&& c.https_port == t.https_port
                &&& c.https_server == t.https_server
                &&& c.tls_cert_path == t.tls_cert_path
                &&& c.tls_key_path == t.tls_key_path
                &&& c.gateways == t.gateways
                &&& c.openai_compat_path@ == "/compat/chat/completions"@
                &&& c.gateway_counter == 0
                &&& c.providers@.len() == t.providers@.len()
                &&& forall|i: int|
                    0 <= i < t.providers@.len() ==> {
                        &&& (#[trigger] c.providers@[i]).name == t.providers@[i].name
                        &&& c.providers@[i].config == t.providers@[i].config
                        &&& c.providers@[i].counter == 0
                    }
            },
    {
        if t.gateways.len() == 0 {
            return Err("At least one gateway configuration is required".to_owned());
        }
        let mut entries = t.providers;
        let mut pools: Vec<ProviderPool> = Vec::new();
        let ghost all_entries = entries@;
        while entries.len() > 0
            invariant
                pools@.len() + entries@.len() == all_entries.len(),
                entries@ == all_entries.skip(pools@.len() as int),
                forall|i: int|
                    0 <= i < pools@.len() ==> {
                        &&& (#[trigger] pools@[i]).name == all_entries[i].name
                        &&& pools@[i].config == all_entries[i].config
                        &&& pools@[i].counter == 0
                    },
            decreases entries@.len(),
        {
            let e = entries.remove(0);
            pools.push(ProviderPool { name: e.name, config: e.config, counter: 0 });
        }
        Ok(
            Config {
                http_port: t.host_port,
                https_port: t.https_port,
                https_server: t.https_server,
                tls_cert_path: t.tls_cert_path,
                tls_key_path: t.tls_key_path,
                gateways: t.gateways,
                providers: pools,
                openai_compat_path: "/compat/chat/completions".to_owned(),
                gateway_counter: 0,
            },
        )
    }

    /// The port the proxy listens on: the TLS port when TLS is enabled,
    /// the plain port otherwise.
    pub fn listen_port(&self) -> (r: u16)
        ensures
            r == if self.https_server {
                self.https_port
            } else {
                self.http_port
            },
    {
        if self.https_server {
            self.https_port
        } else {
            self.http_port
        }
    }

    /// Select the next gateway by round robin: the gateway at the current
    /// counter value modulo the list length, with the counter advanced by
    /// exactly one step.
    pub fn next_gateway(&mut self) -> (g: GatewayConfig)
        requires
            old(self).wf(),
        ensures
            final(self).wf(),
            final(self).gateway_counter == wrap_inc(old(self).gateway_counter),
            final(self).gateways == old(self).gateways,
            final(self).providers == old(self).providers,
            final(self).openai_compat_path == old(self).openai_compat_path,
            final(self).http_port == old(self).http_port,
            final(self).https_port == old(self).https_port,
            final(self).https_server == old(self).https_server,
            final(self).tls_cert_path == old(self).tls_cert_path,
            final(self).tls_key_path == old(self).tls_key_path,
            g == old(self).gateways@[rotation_index(
                old(self).gateway_counter,
                old(self).gateways@.len() as int,
            )],
    {
        let index = self.gateway_counter % self.gateways.len();
        self.gateway_counter = if self.gateway_counter == usize::MAX {
            0
        } else {
            self.gateway_counter + 1
        };
        self.gateways[index].clone()
    }

    /// The token belonging to the gateway selected by the most recent
    /// [`Config::next_gateway`] call: the one at the predecessor of the
    /// current counter value, modulo the list length.
    pub fn current_gateway_token(&self) -> (t: String)
        requires
            self.wf(),
        ensures
            t@ == self.gateways@[rotation_index(
                wrap_dec(self.gateway_counter),
                self.gateways@.len() as int,
            )].token@,
    {
        let prev = if self.gateway_counter == 0 {
            usize::MAX
        } else {
            self.gateway_counter - 1
        };
        let index = prev % self.gateways.len();
        self.gateways[index].token.clone()
    }
}

impl Config {
    /// Select the next API key for `provider` by round robin over that
    /// provider's own pool.  A provider that is not configured, or whose
    /// pool is empty, yields no key and leaves the state untouched.
    pub fn next_api_key(&mut self, provider: &str) -> (r: Option<String>)
        ensures
            (match r {
                Some(k) => Some(k@),
                None => None,
            }) == spec_api_key_of(old(self).providers@, provider@),
            final(self).providers@ == spec_providers_after(old(self).providers@, provider@),
            ({
                let idx = provider_index(old(self).providers@, provider@);
                if idx == -1 {
                    r is None && *final(self) == *old(self)
                } else {
                    let pool = old(self).providers@[idx];
                    if pool.config.api_keys@.len() == 0 {
                        r is None && *final(self) == *old(self)
                    } else {
                        &&& r == Some(
                            pool.config.api_keys@[rotation_index(
                                pool.counter,
                                pool.config.api_keys@.len() as int,
                            )],
                        )
                        &&& final(self).providers@ == old(self).providers@.update(
                            idx,
                            ProviderPool {
                                counter: wrap_inc(pool.counter),
                                name: pool.name,
                                config: pool.config,
                            },
                        )
                        &&& final(self).gateways == old(self).gateways
                        &&& final(self).gateway_counter == old(self).gateway_counter
                        &&& final(self).openai_compat_path == old(self).openai_compat_path
                        &&& final(self).http_port == old(self).http_port
                        &&& final(self).https_port == old(self).https_port
                        &&& final(self).https_server == old(self).https_server
                        &&& final(self).tls_cert_path == old(self).tls_cert_path
                        &&& final(self).tls_key_path == old(self).tls_key_path
                    }
                }
            }),
    {
        let mut i: usize = 0;
        while i < self.providers.len()
            invariant
                *self == *old(self),
                i <= self.providers@.len(),
                forall|j: int|
                    0 <= j < i ==> (#[trigger] old(self).providers@[j]).name@ != provider@,
            decreases self.providers@.len() - i,
        {
            if crate::strutil::str_eq(self.providers[i].name.as_str(), provider) {
                proof {
                    lemma_provider_index(old(self).providers@, provider@);
                    let pools = old(self).providers@;
                    let pidx = provider_index(pools, provider@);
                    if pidx == -1 {
                        assert(pools[i as int].name@ != provider@);
                    } else if pidx < i {
                        assert(pools[pidx].name@ == provider@);
                    } else if i < pidx {
                        assert(pools[i as int].name@ != provider@);
                    }
                    assert(pidx == i);
                }
                if self.providers[i].config.api_keys.len() == 0 {
                    return None;
                }
                let mut pool = self.providers.remove(i);
                let key_index = pool.counter % pool.config.api_keys.len();
                let key = pool.config.api_keys[key_index].clone();
                pool.counter = if pool.counter == usize::MAX {
                    0
                } else {
                    pool.counter + 1
                };
                self.providers.insert(i, pool);
                proof {
                    assert(self.providers@ =~= old(self).providers@.update(
                        i as int,
                        ProviderPool {
                            counter: wrap_inc(old(self).providers@[i as int].counter),
                            name: old(self).providers@[i as int].name,
                            config: old(self).providers@[i as int].config,
                        },
                    ));
                }
                return Some(key);
            }
            i = i + 1;
        }
        proof {
            lemma_provider_index(old(self).providers@, provider@);
            let pidx = provider_index(old(self).providers@, provider@);
            if pidx != -1 {
                assert(old(self).providers@[pidx].name@ == provider@);
            }
        }
        None
    }

    /// Compose the full upstream URL for the next gateway in the rotation:
    /// its base URL followed by the fixed compatibility suffix.  Advances
    /// the gateway counter by exactly one step.
    pub fn next_target_url(&mut self) -> (r: String)
        requires
            old(self).wf(),
        ensures
            final(self).wf(),
            final(self).gateway_counter == wrap_inc(old(self).gateway_counter),
            final(self).gateways == old(self).gateways,
            final(self).providers == old(self).providers,
            final(self).openai_compat_path == old(self).openai_compat_path,
            final(self).http_port == old(self).http_port,
            final(self).https_port == old(self).https_port,
            final(self).https_server == old(self).https_server,
            final(self).tls_cert_path == old(self).tls_cert_path,
            final(self).tls_key_path == old(self).tls_key_path,
            ({
                let g = old(self).gateways@[rotation_index(
                    old(self).gateway_counter,
                    old(self).gateways@.len() as int,
                )];
                r@ == spec_base_url(g.account_id@, g.gateway_id@) + old(self).openai_compat_path@
            }),
    {
        let gateway = self.next_gateway();
        let mut url = gateway.base_url();
        url.append(self.openai_compat_path.as_str());
        url
    }
}

/// The counter value after `k` selections have been made, starting from
/// `c`.  Each selection advances the counter by [`wrap_inc`], as the
/// ensures of [`Config::next_gateway`], [`Config::next_target_url`] and
/// [`Config::next_api_key`] state.
pub open spec fn counter_after(c: usize, k: nat) -> usize
    decreases k,
{
    if k == 0 {
        c
    } else {
        wrap_inc(counter_after(c, (k - 1) as nat))
    }
}

proof fn lemma_counter_after_no_wrap(c: usize, k: nat)
    requires
        c + k <= usize::MAX,
    ensures
        counter_after(c, k) == c + k,
    decreases k,
{
    if k > 0 {
        lemma_counter_after_no_wrap(c, (k - 1) as nat);
    }
}

/// The number of selections, counted from a counter value of `c`, after
/// which a rotation over `n` entries selects the entry at index `t`.
pub open spec fn slot_of(c: usize, n: int, t: int) -> nat
    recommends
        0 < n,
        0 <= t < n,
{
    if t >= c as int % n {
        (t - c as int % n) as nat
    } else {
        (t - c as int % n + n) as nat
    }
}

/// Round-robin fairness for a list of `n` entries rotated by a counter
/// that starts at `c`: among `n` consecutive selections no index repeats
/// and every index is hit, so each entry is selected exactly once, in list
/// order starting from the entry at `c % n`; the selection after those `n`
/// repeats the first.  This holds for the gateway rotation and for each
/// provider pool alike, as long as the counter does not wrap inside the
/// window (it wraps only at the integer bound).
pub proof fn lemma_rotation_fair(c: usize, n: int)
    requires
        0 < n,
        c + n <= usize::MAX,
    ensures
        forall|i: nat, j: nat|
            i < j < n ==> rotation_index(#[trigger] counter_after(c, i), n) != rotation_index(
                #[trigger] counter_after(c, j),
                n,
            ),
        forall|t: int|
            0 <= t < n ==> #[trigger] slot_of(c, n, t) < n && rotation_index(
                counter_after(c, slot_of(c, n, t)),
                n,
            ) == t,
        forall|k: nat|
            k <= n ==> rotation_index(#[trigger] counter_after(c, k), n) == (rotation_index(c, n)
                + k) % n,
        rotation_index(counter_after(c, n as nat), n) == rotation_index(c, n),
{
    assert forall|k: nat| k <= n implies rotation_index(#[trigger] counter_after(c, k), n) == (
    rotation_index(c, n) + k) % n by {
        lemma_counter_after_no_wrap(c, k);
        vstd::arithmetic::div_mod::lemma_add_mod_noop_right(k as int, c as int, n);
        assert((k + c as int % n) % n == (k + c) % n);
    }
    assert forall|i: nat, j: nat| i < j < n implies rotation_index(
        #[trigger] counter_after(c, i),
        n,
    ) != rotation_index(#[trigger] counter_after(c, j), n) by {
        lemma_counter_after_no_wrap(c, i);
        lemma_counter_after_no_wrap(c, j);
        vstd::arithmetic::div_mod::lemma_mod_equivalence(c + j, c + i, n);
        vstd::arithmetic::div_mod::lemma_small_mod((j - i) as nat, n as nat);
    }
    assert forall|t: int| 0 <= t < n implies #[trigger] slot_of(c, n, t) < n && rotation_index(
        counter_after(c, slot_of(c, n, t)),
        n,
    ) == t by {
        vstd::arithmetic::div_mod::lemma_mod_bound(c as int, n);
        let r = c as int % n;
        let k: nat = slot_of(c, n, t);
        lemma_counter_after_no_wrap(c, k);
        vstd::arithmetic::div_mod::lemma_add_mod_noop_right(k as int, c as int, n);
        if t >= r {
            vstd::arithmetic::div_mod::lemma_small_mod(t as nat, n as nat);
        } else {
            vstd::arithmetic::div_mod::lemma_mod_add_multiples_vanish(t - n, n);
            vstd::arithmetic::div_mod::lemma_mod_add_multiples_vanish(t, n);
            vstd::arithmetic::div_mod::lemma_small_mod(t as nat, n as nat);
        }
        assert(rotation_index(counter_after(c, k), n) == t);
    }
    lemma_counter_after_no_wrap(c, n as nat);
    vstd::arithmetic::div_mod::lemma_mod_add_multiples_vanish(c as int, n);
}

/// Reading the current token immediately after a selection yields the
/// token of the gateway that the selection returned: the premises are the
/// ensures of [`Config::next_gateway`], and the conclusion is what
/// [`Config::current_gateway_token`] then returns, because one forward
/// counter step followed by one backward step lands on the same index.
/// This holds only when no other selection intervenes between the two
/// reads; a caller that needs both takes them under one exclusive borrow.
pub proof fn lemma_current_token_after_next(before: Config, after: Config, g: GatewayConfig)
    requires
        before.wf(),
        after.gateways == before.gateways,
        after.gateway_counter == wrap_inc(before.gateway_counter),
        g == before.gateways@[rotation_index(
            before.gateway_counter,
            before.gateways@.len() as int,
        )],
    ensures
        after.gateways@[rotation_index(
            wrap_dec(after.gateway_counter),
            after.gateways@.len() as int,
        )].token == g.token,
{
}

/// Port used when the configuration names none and TLS is off.
pub fn default_port() -> (r: u16)
    ensures
        r == 3000,
{
    3000
}

/// Port used when the configuration names none and TLS is on.
pub fn default_https_port() -> (r: u16)
    ensures
        r == 443,
{
    443
}

/// Certificate path used when the configuration names none.
pub fn default_cert_path() -> (r: String)
    ensures
        r@ == "cert.pem"@,
{
    "cert.pem".to_owned()
}

/// Private-key path used when the configuration names none.
pub fn default_key_path() -> (r: String)
    ensures
        r@ == "key.pem"@,
{
    "key.pem".to_owned()
}

} // verus!
