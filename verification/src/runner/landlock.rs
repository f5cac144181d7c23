//! Filesystem restrictions: which kinds of access are handled, and what each path allows.

use crate::config::{FsSpec, FsView};
use crate::text::views;
use vstd::prelude::*;

verus! {

pub const ACCESS_EXECUTE: u64 = 0x1;

pub const ACCESS_WRITE_FILE: u64 = 0x2;

pub const ACCESS_READ_FILE: u64 = 0x4;

pub const ACCESS_READ_DIR: u64 = 0x8;

pub const ACCESS_REMOVE_DIR: u64 = 0x10;

pub const ACCESS_REMOVE_FILE: u64 = 0x20;

pub const ACCESS_MAKE_CHAR: u64 = 0x40;

pub const ACCESS_MAKE_DIR: u64 = 0x80;

pub const ACCESS_MAKE_REG: u64 = 0x100;

pub const ACCESS_MAKE_SOCK: u64 = 0x200;

pub const ACCESS_MAKE_FIFO: u64 = 0x400;

pub const ACCESS_MAKE_BLOCK: u64 = 0x800;

pub const ACCESS_MAKE_SYM: u64 = 0x1000;

pub const ACCESS_REFER: u64 = 0x2000;

pub const ACCESS_TRUNCATE: u64 = 0x4000;

/// Reading files and directories, and executing.
pub open spec fn read_access() -> u64 {
    ACCESS_READ_FILE | ACCESS_READ_DIR | ACCESS_EXECUTE
}

/// Every kind of access that changes something, in the first version of the interface.
pub open spec fn basic_write_access() -> u64 {
    ACCESS_WRITE_FILE | ACCESS_REMOVE_DIR | ACCESS_REMOVE_FILE | ACCESS_MAKE_CHAR | ACCESS_MAKE_DIR | ACCESS_MAKE_REG
        | ACCESS_MAKE_SOCK | ACCESS_MAKE_FIFO | ACCESS_MAKE_BLOCK | ACCESS_MAKE_SYM
}

/// Every kind of access that changes something, in a version of the interface.
pub open spec fn write_access(abi: i32) -> u64 {
    if abi >= 3 {
        basic_write_access() | ACCESS_REFER | ACCESS_TRUNCATE
    } else if abi >= 2 {
        basic_write_access() | ACCESS_REFER
    } else {
        basic_write_access()
    }
}

/// The kinds of access that are restricted: those that change something
/// always, reading only where paths to read are named.
pub open spec fn handled_access(abi: i32, fs: FsView) -> u64 {
    if fs.read.len() > 0 {
        write_access(abi) | read_access()
    } else {
        write_access(abi)
    }
}

/// Every kind of access that changes something, in a version of the interface.
pub fn write_access_mask(abi: i32) -> (mask: u64)
    ensures
        mask == write_access(abi),
{
    let mut mask: u64 = ACCESS_WRITE_FILE | ACCESS_REMOVE_DIR | ACCESS_REMOVE_FILE | ACCESS_MAKE_CHAR | ACCESS_MAKE_DIR
        | ACCESS_MAKE_REG | ACCESS_MAKE_SOCK | ACCESS_MAKE_FIFO | ACCESS_MAKE_BLOCK | ACCESS_MAKE_SYM;
    if abi >= 2 {
        mask = mask | ACCESS_REFER;
    }
    if abi >= 3 {
        mask = mask | ACCESS_TRUNCATE;
    }
    mask
}

/// The kinds of access that are restricted.
pub fn landlock_supported_mask(abi: i32, fs: &FsSpec) -> (mask: u64)
    ensures
        mask == handled_access(abi, fs@),
{
    let mask: u64 = write_access_mask(abi);
    assert(fs@.read.len() == fs.read@.len());
    if fs.read.len() > 0 {
        mask | (ACCESS_READ_FILE | ACCESS_READ_DIR | ACCESS_EXECUTE)
    } else {
        mask
    }
}

/// What is allowed below a path.
#[derive(Debug, PartialEq, Eq)]
pub struct LandlockRule {
    pub path: String,
    pub access: u64,
}

/// The value of a rule.
pub open spec fn rule_view(rule: LandlockRule) -> (Seq<char>, u64) {
    (rule.path@, rule.access)
}

/// The values of a list of rules.
pub open spec fn rule_views(rules: Seq<LandlockRule>) -> Seq<(Seq<char>, u64)> {
    rules.map_values(|r: LandlockRule| rule_view(r))
}

/// What is allowed below a path that may be read.
pub open spec fn read_rule_access(abi: i32, fs: FsView) -> u64 {
    read_access() & handled_access(abi, fs)
}

/// What is allowed below a path that may be written; reading it needs leave
/// only where reading is restricted.
pub open spec fn write_rule_access(abi: i32, fs: FsView) -> u64 {
    if fs.read.len() > 0 {
        (write_access(abi) & handled_access(abi, fs)) | (read_access() & handled_access(abi, fs))
    } else {
        write_access(abi) & handled_access(abi, fs)
    }
}

/// The rules for some paths; none where they would allow nothing.
pub open spec fn rules_for(paths: Seq<Seq<char>>, access: u64) -> Seq<(Seq<char>, u64)> {
    if access == 0 {
        Seq::empty()
    } else {
        paths.map_values(|p: Seq<char>| (p, access))
    }
}

/// The rules of a policy: those for the paths to read, then those for the paths to write.
pub open spec fn rules_of(abi: i32, fs: FsView) -> Seq<(Seq<char>, u64)> {
    rules_for(fs.read, read_rule_access(abi, fs)) + rules_for(fs.write, write_rule_access(abi, fs))
}

/// The access that is restricted, and the rules.
pub struct LandlockPlan {
    pub handled: u64,
    pub rules: Vec<LandlockRule>,
}

/// Appends the rules for some paths.
fn push_rules(rules: &mut Vec<LandlockRule>, paths: &Vec<String>, access: u64)
    ensures
        rule_views(final(rules)@) == rule_views(old(rules)@) + rules_for(views(paths@), access),
{
    let ghost start = rule_views(rules@);
    let ghost list = views(paths@);
    if access == 0 {
        assert(start + rules_for(list, access) =~= start);
        return;
    }
    assert(start + rules_for(list.take(0), access) =~= start);
    for i in 0..paths.len()
        invariant
            access != 0,
            list == views(paths@),
            rule_views(rules@) == start + rules_for(list.take(i as int), access),
    {
        let ghost earlier = rules@;
        rules.push(LandlockRule { path: paths[i].clone(), access });
        assert(rule_views(rules@) =~= rule_views(earlier).push((list[i as int], access)));
        assert(list.take(i + 1) =~= list.take(i as int).push(list[i as int]));
        assert(rule_views(rules@) =~= start + rules_for(list.take(i + 1), access));
    }
    assert(list.take(paths@.len() as int) =~= list);
}

/// The restrictions that a policy asks for, in a version of the interface;
/// an error where nothing would be restricted.
pub fn landlock_plan(abi: i32, fs: &FsSpec) -> (plan: Result<LandlockPlan, String>)
    ensures
        match plan {
            Ok(p) => handled_access(abi, fs@) != 0 && p.handled == handled_access(abi, fs@) && rule_views(p.rules@) == rules_of(abi, fs@),
            Err(e) => handled_access(abi, fs@) == 0 && e@ == "Landlock handled access mask is empty"@,
        },
{
    let handled: u64 = landlock_supported_mask(abi, fs);
    if handled == 0 {
        return Err("Landlock handled access mask is empty".to_string());
    }
    let read: u64 = ACCESS_READ_FILE | ACCESS_READ_DIR | ACCESS_EXECUTE;
    let write: u64 = write_access_mask(abi);
    let mut rules: Vec<LandlockRule> = Vec::new();
    assert(rule_views(rules@) =~= Seq::empty());
    assert(fs@.read.len() == fs.read@.len());
    push_rules(&mut rules, &fs.read, read & handled);
    let access: u64 = if fs.read.len() > 0 {
        (write & handled) | (read & handled)
    } else {
        write & handled
    };
    push_rules(&mut rules, &fs.write, access);
    assert(rule_views(rules@) =~= rules_of(abi, fs@));
    Ok(LandlockPlan { handled, rules })
}

/// A policy always restricts writing, so it is never refused as empty; and no
/// rule allows a kind of access that is not restricted.
pub proof fn rules_stay_within_the_restriction(abi: i32, fs: FsView)
    ensures
        handled_access(abi, fs) != 0,
        forall|i: int|
            0 <= i < rules_of(abi, fs).len() ==> (#[trigger] rules_of(abi, fs)[i]).1 & handled_access(abi, fs) == rules_of(abi, fs)[i].1,
{
    let handled = handled_access(abi, fs);
    let read = read_access();
    let write = write_access(abi);
    let basic = basic_write_access();
    assert(basic != 0 && (basic | ACCESS_REFER) != 0 && (basic | ACCESS_REFER | ACCESS_TRUNCATE) != 0) by (bit_vector)
        requires
            basic == (0x2u64 | 0x10u64 | 0x20u64 | 0x40u64 | 0x80u64 | 0x100u64 | 0x200u64 | 0x400u64 | 0x800u64 | 0x1000u64),
            ACCESS_REFER == 0x2000u64,
            ACCESS_TRUNCATE == 0x4000u64,
    ;
    assert(write != 0);
    assert((write | read) != 0) by (bit_vector)
        requires
            write != 0,
    ;
    assert((read & handled) & handled == read & handled) by (bit_vector);
    assert((write & handled) & handled == write & handled) by (bit_vector);
    assert(((write & handled) | (read & handled)) & handled == ((write & handled) | (read & handled))) by (bit_vector);
}

/// A path that is only to be read is not allowed any kind of access that changes something.
pub proof fn read_rules_allow_no_change(abi: i32, fs: FsView)
    ensures
        read_rule_access(abi, fs) & write_access(abi) == 0,
{
    let handled = handled_access(abi, fs);
    let read = read_access();
    let write = write_access(abi);
    let basic = basic_write_access();
    assert(basic & read == 0 && ACCESS_REFER & read == 0 && ACCESS_TRUNCATE & read == 0) by (bit_vector)
        requires
            basic == (0x2u64 | 0x10u64 | 0x20u64 | 0x40u64 | 0x80u64 | 0x100u64 | 0x200u64 | 0x400u64 | 0x800u64 | 0x1000u64),
            read == (0x4u64 | 0x8u64 | 0x1u64),
            ACCESS_REFER == 0x2000u64,
            ACCESS_TRUNCATE == 0x4000u64,
    ;
    assert((basic | ACCESS_REFER) & read == 0 && (basic | ACCESS_REFER | ACCESS_TRUNCATE) & read == 0) by (bit_vector)
        requires
            basic & read == 0,
            ACCESS_REFER & read == 0,
            ACCESS_TRUNCATE & read == 0,
    ;
    assert((read & handled) & write == 0) by (bit_vector)
        requires
            write & read == 0,
    ;
}

/// What was prepared before the process starts: the ruleset, where there is
/// one, and what had to be left out.
#[derive(Debug, PartialEq, Eq)]
pub struct PreparedSandbox {
    pub landlock_ruleset_fd: Option<i32>,
    pub degraded: Vec<String>,
}

impl PreparedSandbox {
    /// What comes of an attempt to create the ruleset, where one was asked
    /// for: a failure is let pass only where degraded runs are allowed.
    pub fn prepare(attempt: Option<Result<i32, String>>, allow_degraded: bool) -> (prepared: Result<PreparedSandbox, String>)
        ensures
            match attempt {
                None => prepared matches Ok(p) && p.landlock_ruleset_fd is None && p.degraded@.len() == 0,
                Some(Ok(fd)) => prepared matches Ok(p) && p.landlock_ruleset_fd == Some(fd) && p.degraded@.len() == 0,
                Some(Err(e)) => if allow_degraded {
                    prepared matches Ok(p) && p.landlock_ruleset_fd is None && views(p.degraded@) == seq![
                        "landlock disabled: "@ + e@,
                    ]
                } else {
                    prepared matches Err(error) && error@ == e@
                },
            },
    {
        match attempt {
            None => Ok(PreparedSandbox { landlock_ruleset_fd: None, degraded: Vec::new() }),
            Some(Ok(fd)) => Ok(PreparedSandbox { landlock_ruleset_fd: Some(fd), degraded: Vec::new() }),
            Some(Err(e)) => if allow_degraded {
                let mut degraded: Vec<String> = Vec::new();
                degraded.push(crate::text::concat2("landlock disabled: ", e.as_str()));
                assert(views(degraded@) =~= seq!["landlock disabled: "@ + e@]);
                Ok(PreparedSandbox { landlock_ruleset_fd: None, degraded })
            } else {
                Err(e)
            },
        }
    }
}

} // verus!
