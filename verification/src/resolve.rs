//! Configuration resolution: merge command-line flags, defaults-file
//! overrides and inference from the target's own arguments into a
//! validated configuration.
//!
//! Flags are recognized only in the first two argument slots; everything
//! else is the target command. File probes happen outside the library: the
//! resolver is staged so that the key file is probed first, the store file
//! only afterwards, and the target name is checked last.

use vstd::prelude::*;
use vstd::string::StringExecFns;

use crate::paths::is_allowed_target;
use crate::paths::is_jetp_target;
use crate::paths::store_beside;
use crate::paths::store_path_beside;
use crate::strutil::str_eq;

verus! {

pub open spec fn is_store_flag(a: Seq<char>) -> bool {
    a == "--store"@ || a == "-s"@
}

pub open spec fn is_key_flag(a: Seq<char>) -> bool {
    a == "--key"@ || a == "-k"@
}

/// What examining one argument slot yields: at most one recognized flag
/// value, at most one passthrough token, and the index of the next slot.
pub ghost struct SlotScan {
    pub store: Option<Seq<char>>,
    pub key: Option<Seq<char>>,
    pub passthrough: Seq<Seq<char>>,
    pub next: int,
}

/// Examines the argument slot at `i`: a recognized flag consumes the
/// following token as its value (and is dropped when no token follows);
/// any other token passes through to the target command.
pub open spec fn scan_slot(args: Seq<Seq<char>>, i: int) -> SlotScan {
    if !(0 <= i < args.len()) {
        SlotScan { store: None, key: None, passthrough: seq![], next: i }
    } else if is_store_flag(args[i]) {
        if i + 1 < args.len() {
            SlotScan { store: Some(args[i + 1]), key: None, passthrough: seq![], next: i + 2 }
        } else {
            SlotScan { store: None, key: None, passthrough: seq![], next: i + 1 }
        }
    } else if is_key_flag(args[i]) {
        if i + 1 < args.len() {
            SlotScan { store: None, key: Some(args[i + 1]), passthrough: seq![], next: i + 2 }
        } else {
            SlotScan { store: None, key: None, passthrough: seq![], next: i + 1 }
        }
    } else {
        SlotScan { store: None, key: None, passthrough: seq![args[i]], next: i + 1 }
    }
}

/// What the whole argument scan yields.
pub ghost struct ScanModel {
    pub store: Option<Seq<char>>,
    pub key: Option<Seq<char>>,
    pub target: Seq<Seq<char>>,
}

/// The fixed two-slot flag scan: flags are recognized in the first two
/// slots only (a later slot wins on repetition); all remaining tokens form
/// the target command in order.
pub open spec fn scan_args_spec(args: Seq<Seq<char>>) -> ScanModel {
    let r1 = scan_slot(args, 0);
    let r2 = scan_slot(args, r1.next);
    ScanModel {
        store: if r2.store is Some {
            r2.store
        } else {
            r1.store
        },
        key: if r2.key is Some {
            r2.key
        } else {
            r1.key
        },
        target: r1.passthrough + r2.passthrough + args.skip(r2.next),
    }
}

/// The store path inferred from the target command: the token after the
/// first `-i`, with `secrets.json` placed beside it; nothing when no `-i`
/// with a following token exists.
pub open spec fn infer_store(target: Seq<Seq<char>>) -> Option<Seq<char>>
    decreases target.len(),
{
    if target.len() < 2 {
        None
    } else if target[0] == "-i"@ {
        Some(store_beside(target[1]))
    } else {
        infer_store(target.skip(1))
    }
}

/// The key-file location used when neither a flag nor the defaults file
/// names one.
pub open spec fn default_key_path() -> Seq<char> {
    "~/.securestore/secrets.key"@
}

/// Key-path precedence: flag over defaults file over the fixed default.
pub open spec fn resolved_key_path(scanned: Option<Seq<char>>, env: Option<Seq<char>>) -> Seq<
    char,
> {
    match scanned {
        Some(k) => k,
        None => match env {
            Some(k) => k,
            None => default_key_path(),
        },
    }
}

/// Store-path precedence: flag over defaults file over inference from the
/// target command.
pub open spec fn resolved_store_path(
    scanned: Option<Seq<char>>,
    env: Option<Seq<char>>,
    target: Seq<Seq<char>>,
) -> Option<Seq<char>> {
    if scanned is Some {
        scanned
    } else if env is Some {
        env
    } else {
        infer_store(target)
    }
}

/// An explicit store flag always wins: once the argument scan found a
/// store path, neither the defaults file nor inference from `-i` can
/// change the resolved store.
pub proof fn lemma_explicit_store_wins(
    args: Seq<Seq<char>>,
    env_store: Option<Seq<char>>,
    s: Seq<char>,
)
    requires
        scan_args_spec(args).store == Some(s),
    ensures
        resolved_store_path(scan_args_spec(args).store, env_store, scan_args_spec(args).target)
            == Some(s),
{
}

/// A resolution failure; each carries what a status message needs.
#[derive(Debug)]
pub enum ResolveError {
    InsufficientArguments,
    KeyFileUnreadable { key_path: String },
    NoStoreSpecified,
    StoreFileUnreadable { store_path: String },
    TargetNotJetp,
}

/// The status message for a resolution failure; an unreadable file is
/// reported with its path.
pub open spec fn message_of(e: ResolveError) -> Seq<char> {
    match e {
        ResolveError::InsufficientArguments => "not enough arguments"@,
        ResolveError::KeyFileUnreadable { key_path } => "could not read secret key at ["@
            + key_path@ + "]"@,
        ResolveError::NoStoreSpecified => "no secret store specified"@,
        ResolveError::StoreFileUnreadable { store_path } => "could not read secret store at ["@
            + store_path@ + "]"@,
        ResolveError::TargetNotJetp => "target command must be 'jetp'"@,
    }
}

impl ResolveError {
    /// Renders the status message, naming the offending path where one is
    /// involved.
    pub fn message(&self) -> (r: String)
        ensures
            r@ == message_of(*self),
    {
        match self {
            ResolveError::InsufficientArguments => String::from_str("not enough arguments"),
            ResolveError::KeyFileUnreadable { key_path } => String::from_str(
                "could not read secret key at [",
            ).concat(key_path.as_str()).concat("]"),
            ResolveError::NoStoreSpecified => String::from_str("no secret store specified"),
            ResolveError::StoreFileUnreadable { store_path } => String::from_str(
                "could not read secret store at [",
            ).concat(store_path.as_str()).concat("]"),
            ResolveError::TargetNotJetp => String::from_str("target command must be 'jetp'"),
        }
    }
}

/// Overrides read from the optional defaults file, passed by value; both
/// are outranked by command-line flags.
#[derive(Debug)]
pub struct DefaultsOverride {
    pub store: Option<String>,
    pub key: Option<String>,
}

/// What the argument scan found.
#[derive(Debug)]
pub struct ScanOutcome {
    pub store: Option<String>,
    pub key: Option<String>,
    pub target: Vec<String>,
}

/// A resolution not yet validated against the file system: the key path is
/// settled, the store path may still be missing.
#[derive(Debug)]
pub struct Candidate {
    pub key_path: String,
    pub store_path: Option<String>,
    pub target_command: Vec<String>,
}

impl Candidate {
    pub open spec fn wf(&self) -> bool {
        self.target_command@.len() >= 1
    }
}

/// A resolution whose key file was readable; the store file is the next
/// thing probed.
#[derive(Debug)]
pub struct StorePlan {
    pub key_path: String,
    pub store_path: String,
    pub target_command: Vec<String>,
}

impl StorePlan {
    pub open spec fn wf(&self) -> bool {
        self.target_command@.len() >= 1
    }
}

/// The validated configuration: both files were readable and the target
/// command's first token has the file-name stem `jetp`.
#[derive(Debug)]
pub struct Config {
    pub secret_store_path: String,
    pub secret_key_path: String,
    pub target_command: Vec<String>,
}

impl Config {
    pub open spec fn wf(&self) -> bool {
        self.target_command@.len() >= 1 && is_jetp_target(self.target_command.deep_view()[0])
    }
}

fn scan_one_slot(
    args: &Vec<String>,
    i: usize,
    store: &mut Option<String>,
    key: &mut Option<String>,
    target: &mut Vec<String>,
) -> (next: usize)
    requires
        i as int <= args.deep_view().len(),
    ensures
        ({
            let m = scan_slot(args.deep_view(), i as int);
            &&& next as int == m.next
            &&& i as int <= m.next <= args.deep_view().len()
            &&& final(store).deep_view() == (if m.store is Some {
                m.store
            } else {
                old(store).deep_view()
            })
            &&& final(key).deep_view() == (if m.key is Some {
                m.key
            } else {
                old(key).deep_view()
            })
            &&& final(target).deep_view() == old(target).deep_view() + m.passthrough
        }),
{
    let n = args.len();
    let ghost m = scan_slot(args.deep_view(), i as int);
    if i == n {
        proof {
            assert(target.deep_view() =~= target.deep_view() + m.passthrough);
        }
        return i;
    }
    let a = &args[i];
    proof {
        assert(a@ == args.deep_view()[i as int]);
    }
    let store_flag = str_eq(a.as_str(), "--store") || str_eq(a.as_str(), "-s");
    let key_flag = str_eq(a.as_str(), "--key") || str_eq(a.as_str(), "-k");
    if store_flag {
        if i + 1 < n {
            *store = Some(args[i + 1].clone());
            i + 2
        } else {
            i + 1
        }
    } else if key_flag {
        if i + 1 < n {
            *key = Some(args[i + 1].clone());
            i + 2
        } else {
            i + 1
        }
    } else {
        let ghost before = target.deep_view();
        target.push(a.clone());
        proof {
            assert(target.deep_view() =~= before + m.passthrough);
        }
        i + 1
    }
}

/// Scans the argument list (program name excluded): flags in the first two
/// slots set the store and key paths; everything else is the target
/// command.
pub fn scan_args(args: &Vec<String>) -> (r: ScanOutcome)
    ensures
        ({
            let m = scan_args_spec(args.deep_view());
            &&& r.store.deep_view() == m.store
            &&& r.key.deep_view() == m.key
            &&& r.target.deep_view() == m.target
        }),
{
    let ghost dv = args.deep_view();
    let ghost r1 = scan_slot(dv, 0);
    let ghost r2 = scan_slot(dv, r1.next);
    let mut store: Option<String> = None;
    let mut key: Option<String> = None;
    let mut target: Vec<String> = Vec::new();
    let i1 = scan_one_slot(args, 0, &mut store, &mut key, &mut target);
    let i2 = scan_one_slot(args, i1, &mut store, &mut key, &mut target);
    let n = args.len();
    let mut j: usize = i2;
    proof {
        assert(target.deep_view() =~= r1.passthrough + r2.passthrough + dv.subrange(
            i2 as int,
            j as int,
        ));
    }
    while j < n
        invariant
            i2 <= j <= n,
            n == dv.len(),
            dv == args.deep_view(),
            r1 == scan_slot(dv, 0),
            r2 == scan_slot(dv, r1.next),
            i2 as int == r2.next,
            store.deep_view() == (if r2.store is Some {
                r2.store
            } else {
                r1.store
            }),
            key.deep_view() == (if r2.key is Some {
                r2.key
            } else {
                r1.key
            }),
            target.deep_view() == r1.passthrough + r2.passthrough + dv.subrange(
                i2 as int,
                j as int,
            ),
        decreases n - j,
    {
        let ghost before = target.deep_view();
        target.push(args[j].clone());
        proof {
            assert(target.deep_view() =~= before.push(dv[j as int]));
            assert(target.deep_view() =~= r1.passthrough + r2.passthrough + dv.subrange(
                i2 as int,
                j + 1,
            ));
        }
        j = j + 1;
    }
    proof {
        assert(dv.subrange(i2 as int, n as int) =~= dv.skip(r2.next));
    }
    ScanOutcome { store, key, target }
}

/// Finds the store path the target command implies, if any: the first
/// `-i` token with a successor names the inventory file, and the store is
/// expected beside it.
pub fn infer_store_from_target(target: &Vec<String>) -> (r: Option<String>)
    ensures
        r.deep_view() == infer_store(target.deep_view()),
{
    let ghost dv = target.deep_view();
    let n = target.len();
    let mut i: usize = 0;
    proof {
        assert(dv.skip(0) =~= dv);
    }
    if n == 0 {
        return None;
    }
    let limit = n - 1;
    while i < limit
        invariant
            i <= limit,
            limit == n - 1,
            n == dv.len(),
            dv == target.deep_view(),
            infer_store(dv) == infer_store(dv.skip(i as int)),
        decreases limit - i,
    {
        proof {
            assert(dv.skip(i as int)[0] == dv[i as int]);
            assert(dv.skip(i as int).len() >= 2);
        }
        if str_eq(target[i].as_str(), "-i") {
            let s = store_path_beside(target[i + 1].as_str());
            proof {
                assert(dv.skip(i as int)[1] == dv[i + 1]);
            }
            return Some(s);
        }
        proof {
            assert(dv.skip(i as int).skip(1) =~= dv.skip(i + 1));
        }
        i = i + 1;
    }
    None
}

/// Resolves the argument list and defaults into a candidate: scans the
/// flags, settles the key path (flag, then defaults file, then the fixed
/// default) and the store path (flag, then defaults file, then inference),
/// and rejects an empty target command.
pub fn prepare(args: &Vec<String>, defaults: &DefaultsOverride) -> (r: Result<
    Candidate,
    ResolveError,
>)
    ensures
        ({
            let m = scan_args_spec(args.deep_view());
            match r {
                Ok(c) => {
                    &&& m.target.len() > 0
                    &&& c.wf()
                    &&& c.key_path@ == resolved_key_path(m.key, defaults.key.deep_view())
                    &&& c.store_path.deep_view() == resolved_store_path(
                        m.store,
                        defaults.store.deep_view(),
                        m.target,
                    )
                    &&& c.target_command.deep_view() == m.target
                },
                Err(e) => m.target.len() == 0 && (e matches ResolveError::InsufficientArguments),
            }
        }),
{
    let scan = scan_args(args);
    if scan.target.len() == 0 {
        return Err(ResolveError::InsufficientArguments);
    }
    let key_path = match scan.key {
        Some(k) => k,
        None => match &defaults.key {
            Some(k) => k.clone(),
            None => String::from_str("~/.securestore/secrets.key"),
        },
    };
    let store_path = match scan.store {
        Some(s) => Some(s),
        None => match &defaults.store {
            Some(s) => Some(s.clone()),
            None => infer_store_from_target(&scan.target),
        },
    };
    Ok(Candidate { key_path, store_path, target_command: scan.target })
}

/// Takes the outcome of probing the key file for readability. An
/// unreadable key file fails resolution here, before the store file is
/// even considered, naming the key path; afterwards a missing store path
/// is rejected.
pub fn accept_key_probe(c: Candidate, key_readable: bool) -> (r: Result<StorePlan, ResolveError>)
    requires
        c.wf(),
    ensures
        !key_readable ==> (r matches Err(ResolveError::KeyFileUnreadable { key_path: kp })
            && kp@ == c.key_path@),
        key_readable ==> match c.store_path {
            None => r matches Err(ResolveError::NoStoreSpecified),
            Some(sp) => r matches Ok(p) && p.wf() && p.key_path@ == c.key_path@ && p.store_path@
                == sp@ && p.target_command.deep_view() == c.target_command.deep_view(),
        },
{
    if !key_readable {
        return Err(ResolveError::KeyFileUnreadable { key_path: c.key_path });
    }
    match c.store_path {
        None => Err(ResolveError::NoStoreSpecified),
        Some(sp) => Ok(
            StorePlan {
                key_path: c.key_path,
                store_path: sp,
                target_command: c.target_command,
            },
        ),
    }
}

/// Takes the outcome of probing the store file for readability, then
/// applies the allow-list check on the target: only a first token whose
/// file-name stem is exactly `jetp` yields a configuration.
pub fn accept_store_probe(p: StorePlan, store_readable: bool) -> (r: Result<Config, ResolveError>)
    requires
        p.wf(),
    ensures
        !store_readable ==> (r matches Err(ResolveError::StoreFileUnreadable { store_path: sp })
            && sp@ == p.store_path@),
        store_readable && !is_jetp_target(p.target_command.deep_view()[0]) ==> r matches Err(
            ResolveError::TargetNotJetp,
        ),
        store_readable && is_jetp_target(p.target_command.deep_view()[0]) ==> (r matches Ok(c)
            && c.wf() && c.secret_store_path@ == p.store_path@ && c.secret_key_path@
            == p.key_path@ && c.target_command.deep_view() == p.target_command.deep_view()),
{
    if !store_readable {
        return Err(ResolveError::StoreFileUnreadable { store_path: p.store_path });
    }
    let allowed = is_allowed_target(p.target_command[0].as_str());
    proof {
        assert(p.target_command@[0]@ == p.target_command.deep_view()[0]);
    }
    if !allowed {
        return Err(ResolveError::TargetNotJetp);
    }
    Ok(
        Config {
            secret_store_path: p.store_path,
            secret_key_path: p.key_path,
            target_command: p.target_command,
        },
    )
}

} // verus!

