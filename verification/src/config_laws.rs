//! What each environment variable does, whatever the others are.

use vstd::prelude::*;

use crate::config::{parsed_cdn_mode, CdnCacheMode, EnvView};
use crate::model::{parsed_mode, SearchMode};
use crate::number::{decimal, law_decimal_reads_back, unsigned_value};
use crate::text::folded;

verus! {

/// Whether a variable is not set, or to a number that can be held.
pub open spec fn is_number_setting(v: Option<Seq<char>>) -> bool {
    v matches Some(t) ==> unsigned_value(t) is Some && unsigned_value(t)->0 <= u64::MAX
}

/// The number that a variable is set to, or `default` where it is not set.
pub open spec fn number_setting(v: Option<Seq<char>>, default: nat) -> nat {
    match v {
        Some(t) => unsigned_value(t)->0,
        None => default,
    }
}

/// The address: host, colon, port. Each variable does its part whether or not the other is set.
pub proof fn law_host_and_port_bind(env: EnvView)
    requires
        env.config() is Ok,
    ensures
        env.port matches Some(p) ==> (":"@ + p).is_suffix_of(env.config()->Ok_0.bind),
        env.port is None ==> ":8080"@.is_suffix_of(env.config()->Ok_0.bind),
        env.host matches Some(h) ==> (h + ":"@).is_prefix_of(env.config()->Ok_0.bind),
        env.host is None ==> "0.0.0.0:"@.is_prefix_of(env.config()->Ok_0.bind),
        env.config()->Ok_0.bind.len() == (match env.host {
            Some(h) => h.len(),
            None => 7,
        }) + 1 + (match env.port {
            Some(p) => p.len(),
            None => 4,
        }),
{
    reveal_strlit(":");
    reveal_strlit(":8080");
    reveal_strlit("8080");
    reveal_strlit("0.0.0.0");
    reveal_strlit("0.0.0.0:");
    let bind = env.config()->Ok_0.bind;
    let host = match env.host {
        Some(h) => h,
        None => "0.0.0.0"@,
    };
    let port = match env.port {
        Some(p) => p,
        None => "8080"@,
    };
    assert(bind == host + ":"@ + port);
    let n = bind.len() as int;
    assert((":"@ + port) == bind.subrange(n - (":"@ + port).len(), n));
    assert((host + ":"@) == bind.subrange(0, (host + ":"@).len() as int));
    assert(":8080"@ == ":"@ + "8080"@);
    assert("0.0.0.0:"@ == "0.0.0.0"@ + ":"@);
}

/// Each number is the one that its variable is set to, in seconds or bytes, or its default; answers
/// that soon grow old are kept for the shorter of the two lifetimes.
pub proof fn law_numbers_are_taken(env: EnvView)
    requires
        env.config() is Ok,
    ensures
        env.config()->Ok_0.cache_ttl == number_setting(env.cache_ttl_secs, 300) * 1_000_000_000,
        env.config()->Ok_0.cache_max_bytes == number_setting(
            env.cache_max_bytes,
            256 * 1024 * 1024,
        ),
        env.config()->Ok_0.request_timeout == number_setting(env.request_timeout_secs, 30)
            * 1_000_000_000,
        number_setting(env.cache_ttl_volatile_secs, 120) <= number_setting(env.cache_ttl_secs, 300)
            ==> env.config()->Ok_0.cache_ttl_volatile == number_setting(
            env.cache_ttl_volatile_secs,
            120,
        ) * 1_000_000_000,
        number_setting(env.cache_ttl_volatile_secs, 120) > number_setting(env.cache_ttl_secs, 300)
            ==> env.config()->Ok_0.cache_ttl_volatile == env.config()->Ok_0.cache_ttl,
{
}

/// A lifetime that is written in decimal is the lifetime that is taken.
pub proof fn law_written_lifetime_is_taken(env: EnvView, n: nat)
    requires
        env.config() is Ok,
        env.cache_ttl_secs == Some(decimal(n)),
    ensures
        env.config()->Ok_0.cache_ttl == n * 1_000_000_000,
{
    law_decimal_reads_back(n);
    law_numbers_are_taken(env);
}

/// Keys and address of the upstream service are taken as they are; an empty client's key is none.
pub proof fn law_texts_are_taken(env: EnvView)
    requires
        env.config() is Ok,
    ensures
        env.parallel_api_key == Some(env.config()->Ok_0.parallel_api_key),
        env.config()->Ok_0.parallel_api_key.len() > 0,
        env.parallel_base_url matches Some(u) ==> env.config()->Ok_0.parallel_base_url == u,
        env.parallel_base_url is None ==> env.config()->Ok_0.parallel_base_url
            == "https://api.parallel.ai"@,
        env.search_api_key matches Some(k) ==> (if k.len() > 0 {
            env.config()->Ok_0.search_api_key == Some(k)
        } else {
            env.config()->Ok_0.search_api_key is None
        }),
        env.search_api_key is None ==> env.config()->Ok_0.search_api_key is None,
{
}

/// The modes are those that are named; where none is named, requests are turbo, and answers are for
/// all unless a client's key is asked for.
pub proof fn law_named_modes_are_taken(env: EnvView)
    requires
        env.config() is Ok,
    ensures
        env.default_mode is None ==> env.config()->Ok_0.default_mode == SearchMode::Turbo,
        env.default_mode matches Some(v) ==> parsed_mode(v) == Ok::<SearchMode, Seq<char>>(
            env.config()->Ok_0.default_mode,
        ),
        env.cdn_cache matches Some(v) ==> parsed_cdn_mode(v) == Ok::<CdnCacheMode, Seq<char>>(
            env.config()->Ok_0.cdn_cache,
        ),
        env.cdn_cache is None ==> env.config()->Ok_0.cdn_cache == (if env.search_api_key is Some
            && env.search_api_key->0.len() > 0 {
            CdnCacheMode::Private
        } else {
            CdnCacheMode::Public
        }),
{
}

/// A caching mode is read exactly where its name stands, whatever the case and the white space
/// around it; anything else is told to be none.
pub proof fn law_cdn_modes_are_read_by_name(value: Seq<char>)
    ensures
        parsed_cdn_mode(value) == Ok::<CdnCacheMode, Seq<char>>(CdnCacheMode::Public) <==> folded(
            value,
        ) == "public"@,
        parsed_cdn_mode(value) == Ok::<CdnCacheMode, Seq<char>>(CdnCacheMode::Private) <==> folded(
            value,
        ) == "private"@,
        parsed_cdn_mode(value) == Ok::<CdnCacheMode, Seq<char>>(CdnCacheMode::Off) <==> folded(value)
            == "off"@ || folded(value) == "no-store"@,
        parsed_cdn_mode(value) is Err ==> parsed_cdn_mode(value)->Err_0 == "invalid CDN_CACHE '"@
            + folded(value) + "'; expected public, private, or off"@,
{
    reveal_strlit("public");
    reveal_strlit("private");
    reveal_strlit("off");
    reveal_strlit("no-store");
    assert("public"@.len() == 6 && "private"@.len() == 7 && "off"@.len() == 3 && "no-store"@.len()
        == 8);
}

/// The settings are taken exactly where the upstream key is there and no variable is wrong.
pub proof fn law_right_settings_are_taken(env: EnvView)
    ensures
        env.config() is Ok <==> {
            &&& env.parallel_api_key is Some && env.parallel_api_key->0.len() > 0
            &&& env.default_mode matches Some(v) ==> parsed_mode(v) is Ok
            &&& is_number_setting(env.cache_ttl_secs)
            &&& is_number_setting(env.cache_ttl_volatile_secs)
            &&& is_number_setting(env.cache_max_bytes)
            &&& is_number_setting(env.request_timeout_secs)
            &&& env.cdn_cache matches Some(v) ==> parsed_cdn_mode(v) is Ok
        },
{
}

/// The first variable that is wrong is told, in the order: upstream key, mode, the two lifetimes,
/// size, time limit, caching.
pub proof fn law_first_wrong_setting_is_told(env: EnvView)
    ensures
        ({
            let told = env.config();
            let key = env.parallel_api_key is Some && env.parallel_api_key->0.len() > 0;
            let mode = env.default_mode matches Some(v) ==> parsed_mode(v) is Ok;
            let ttl = is_number_setting(env.cache_ttl_secs);
            let volatile = is_number_setting(env.cache_ttl_volatile_secs);
            let bytes = is_number_setting(env.cache_max_bytes);
            let timeout = is_number_setting(env.request_timeout_secs);
            let cdn = env.cdn_cache matches Some(v) ==> parsed_cdn_mode(v) is Ok;
            &&& !key ==> told is Err && told->Err_0 == "PARALLEL_API_KEY is required"@
            &&& key && !mode ==> told is Err && told->Err_0 == parsed_mode(
                env.default_mode->0,
            )->Err_0
            &&& key && mode && !ttl ==> told is Err && told->Err_0 == "CACHE_TTL_SECS"@
                + " must be a positive integer"@
            &&& key && mode && ttl && !volatile ==> told is Err && told->Err_0
                == "CACHE_TTL_VOLATILE_SECS"@ + " must be a positive integer"@
            &&& key && mode && ttl && volatile && !bytes ==> told is Err && told->Err_0
                == "CACHE_MAX_BYTES"@ + " must be a positive integer"@
            &&& key && mode && ttl && volatile && bytes && !timeout ==> told is Err && told->Err_0
                == "REQUEST_TIMEOUT_SECS"@ + " must be a positive integer"@
            &&& key && mode && ttl && volatile && bytes && timeout && !cdn ==> told is Err
                && told->Err_0 == parsed_cdn_mode(env.cdn_cache->0)->Err_0
        }),
{
}

} // verus!
