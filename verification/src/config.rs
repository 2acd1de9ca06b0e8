//! The description of an account, and what it says about its mailboxes.

use vstd::prelude::*;
use vstd::string::*;

verus! {

/// The port of IMAP over TLS, taken where an account names none.
pub const DEFAULT_PORT: u16 = 993;

/// One account to synchronise.
#[derive(Debug)]
pub struct Account {
    /// The account's label; it names the directories of the account.
    pub account: String,
    pub server: String,
    pub port: Option<u16>,
    pub username: String,
    /// The directory under which the account's Maildirs lie.
    pub maildir: String,
    /// A shell command that prints the password.
    pub password_command: Option<String>,
    pub password: Option<String>,
    /// Mailboxes that are not synchronised.
    pub exclude: Option<Vec<String>>,
    /// The mailboxes that are kept under watch; all of them where the list
    /// is missing.
    pub idle: Option<Vec<String>>,
    /// The greatest number of connections to hold at one time.
    pub max_concurrency: Option<usize>,
}

/// The accounts of a configuration.
#[derive(Debug)]
pub struct Config {
    pub accounts: Vec<Account>,
}

/// Whether a list of names holds `name`.
pub open spec fn names(list: Seq<String>, name: Seq<char>) -> bool {
    exists|i: int| 0 <= i < list.len() && (#[trigger] list[i])@ == name
}

fn holds(list: &Vec<String>, name: &str) -> (r: bool)
    ensures
        r == names(list@, name@),
{
    let wanted = name.to_owned();
    let mut i: usize = 0;
    while i < list.len()
        invariant
            wanted@ == name@,
            i <= list.len(),
            forall|j: int| 0 <= j < i ==> (#[trigger] list[j])@ != name@,
        decreases list.len() - i,
    {
        if list[i] == wanted {
            return true;
        }
        i = i + 1;
    }
    false
}

impl Account {
    /// Is this mailbox excluded from synchronisation? It is if the account
    /// has a list of excluded mailboxes and the list names it.
    pub fn is_mailbox_excluded(&self, name: &str) -> (r: bool)
        ensures
            r == (self.exclude is Some && names(self.exclude->0@, name@)),
    {
        match &self.exclude {
            Some(exclude) => holds(exclude, name),
            None => false,
        }
    }

    /// Is this mailbox kept under watch? If the account has a list of such
    /// mailboxes, only they are; without a list every mailbox is.
    pub fn is_mailbox_idled(&self, name: &str) -> (r: bool)
        ensures
            r == (self.idle is None || names(self.idle->0@, name@)),
    {
        match &self.idle {
            Some(idle) => holds(idle, name),
            None => true,
        }
    }

    /// Is this mailbox synchronised at all? It is unless the server says that
    /// it cannot be selected, or the account excludes it.
    pub fn syncs_mailbox(&self, name: &str, no_select: bool) -> (r: bool)
        ensures
            r == (!no_select && !(self.exclude is Some && names(self.exclude->0@, name@))),
    {
        !no_select && !self.is_mailbox_excluded(name)
    }

    /// The port to connect to.
    pub fn port_or_default(&self) -> (r: u16)
        ensures
            r == match self.port {
                Some(p) => p,
                None => DEFAULT_PORT,
            },
    {
        match self.port {
            Some(p) => p,
            None => DEFAULT_PORT,
        }
    }

    /// Whether the bound on connections leaves no thread for the mailboxes
    /// that are synchronised once, although there are such mailboxes. The
    /// pool then gets one thread all the same, and the bound is exceeded.
    pub fn pool_is_squeezed(&self, idle: usize, pool: usize) -> (r: bool)
        ensures
            r == (self.max_concurrency is Some && self.max_concurrency->0 <= idle && pool > 0),
    {
        match self.max_concurrency {
            None => false,
            Some(max) => max <= idle && pool > 0,
        }
    }

    /// The number of threads for the mailboxes that are synchronised once,
    /// `pool` of them, beside `idle` mailboxes that each hold a thread of
    /// their own.
    pub fn pool_size(&self, idle: usize, pool: usize) -> (r: usize)
        ensures
            r == spec_pool_size(self.max_concurrency, idle, pool),
    {
        match self.max_concurrency {
            None => pool,
            Some(max) => {
                let left = if max >= idle {
                    max - idle
                } else {
                    0
                };
                if left == 0 && pool > 0 {
                    1
                } else {
                    left
                }
            },
        }
    }
}

/// The size of the pool of threads: without a bound one thread for each
/// mailbox of the pool; with a bound what the watched mailboxes leave of it,
/// and at least one thread if the pool has a mailbox at all.
pub open spec fn spec_pool_size(max: Option<usize>, idle: usize, pool: usize) -> int {
    match max {
        None => pool as int,
        Some(m) => if m - idle <= 0 {
            if pool > 0 {
                1
            } else {
                0
            }
        } else {
            m - idle
        },
    }
}

impl Config {
    /// The configuration of the given accounts, each with its port filled
    /// in: an account that names no port gets the default one.
    pub fn new(accounts: Vec<Account>) -> (r: Config)
        ensures
            r.accounts@.len() == accounts@.len(),
            forall|i: int|
                0 <= i < accounts@.len() ==> (#[trigger] r.accounts@[i]) == (Account {
                    port: Some(
                        match accounts@[i].port {
                            Some(p) => p,
                            None => DEFAULT_PORT,
                        },
                    ),
                    ..accounts@[i]
                }),
    {
        let mut rest = accounts;
        let mut out: Vec<Account> = Vec::new();
        let ghost all = rest@;
        while rest.len() > 0
            invariant
                out@.len() + rest@.len() == all.len(),
                forall|i: int| 0 <= i < rest@.len() ==> rest@[i] == all[out@.len() + i],
                forall|i: int|
                    0 <= i < out@.len() ==> (#[trigger] out@[i]) == (Account {
                        port: Some(
                            match all[i].port {
                                Some(p) => p,
                                None => DEFAULT_PORT,
                            },
                        ),
                        ..all[i]
                    }),
            decreases rest@.len(),
        {
            let mut account = rest.remove(0);
            account.port = Some(account.port_or_default());
            out.push(account);
        }
        Config { accounts: out }
    }
}

} // verus!
