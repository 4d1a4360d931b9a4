//! A cache of what programs printed, so that a program is run again only
//! once it changed on disk.

use vstd::prelude::*;

use crate::text::{cat3, has_text, join, lines, lines_of, not_blank, opt_text, trim, trimmed, views};

verus! {

/// When a program file was last seen: its length and modification time (in
/// nanoseconds from the Unix epoch, negative before it), if known.
#[derive(Clone, Copy, Debug, PartialEq, Eq, Structural)]
pub struct Stamp {
    pub len: u64,
    pub modified: Option<i128>,
}

/// What a program printed for some arguments, and the stamp of the program
/// file when it did.
pub struct Entry {
    pub key: String,
    pub stamp: Option<Stamp>,
    pub output: String,
}

/// The cache of program outputs, one entry per program and arguments.
pub struct Probes {
    cache: Vec<Entry>,
}

/// An entry, as seen by specifications.
pub struct EntryView {
    pub key: Seq<char>,
    pub stamp: Option<Stamp>,
    pub output: Seq<char>,
}

/// The entry of `key` in a cache, if there is one.
pub open spec fn entry_of(cache: Seq<EntryView>, key: Seq<char>) -> Option<EntryView>
    decreases cache.len(),
{
    if cache.len() == 0 {
        None
    } else if cache.last().key == key {
        Some(cache.last())
    } else {
        entry_of(cache.drop_last(), key)
    }
}

/// What the cache answers for `key` with the program file at `stamp`: the
/// output recorded under an equal stamp, or nothing.
pub open spec fn answer(cache: Seq<EntryView>, key: Seq<char>, stamp: Option<Stamp>) -> Option<Seq<char>> {
    match entry_of(cache, key) {
        Some(e) => if e.stamp == stamp { Some(e.output) } else { None },
        None => None,
    }
}

impl View for Probes {
    type V = Seq<EntryView>;

    closed spec fn view(&self) -> Seq<EntryView> {
        self.cache@.map_values(|e: Entry| EntryView { key: e.key@, stamp: e.stamp, output: e.output@ })
    }
}

/// The lines of a program's output that hold text, trimmed.
pub open spec fn text_lines(ls: Seq<Seq<char>>) -> Seq<Seq<char>>
    decreases ls.len(),
{
    if ls.len() == 0 {
        Seq::empty()
    } else {
        let rest = text_lines(ls.drop_last());
        if trim(ls.last()).len() > 0 {
            rest.push(trim(ls.last()))
        } else {
            rest
        }
    }
}

impl Probes {
    /// An empty cache.
    pub fn new() -> (r: Self)
        ensures
            r@.len() == 0,
    {
        let r = Probes { cache: Vec::new() };
        assert(r@ =~= Seq::<EntryView>::empty());
        r
    }

    /// The key a program and its arguments are cached under:
    /// `program|arguments separated by spaces`.
    pub fn key(program: &str, args: &Vec<String>) -> (r: String)
        ensures
            r@ == program@ + "|"@ + crate::text::joined(views(args@), " "@),
    {
        let joined = join(args, " ");
        cat3(program, "|", joined.as_str())
    }

    /// The output recorded for `key` under the stamp `stamp`, if any.
    pub fn cached(&self, key: &String, stamp: Option<Stamp>) -> (r: Option<String>)
        ensures
            match r {
                Some(o) => answer(self@, key@, stamp) == Some(o@),
                None => answer(self@, key@, stamp) is None,
            },
    {
        let mut i = self.cache.len();
        assert(self@.take(i as int) =~= self@);
        while i > 0
            invariant
                i <= self.cache@.len(),
                entry_of(self@, key@) == entry_of(self@.take(i as int), key@),
            decreases i,
        {
            assert(self@.take(i as int).drop_last() =~= self@.take(i - 1));
            let e = &self.cache[i - 1];
            assert(self@[i - 1] == EntryView { key: e.key@, stamp: e.stamp, output: e.output@ });
            if e.key == *key {
                if e.stamp == stamp {
                    return Some(e.output.clone());
                }
                return None;
            }
            i = i - 1;
        }
        None
    }

    /// Records what `key` printed with the program file at `stamp`.
    pub fn record(&mut self, key: String, stamp: Option<Stamp>, output: String)
        ensures
            final(self)@ == old(self)@.push(EntryView { key: key@, stamp, output: output@ }),
    {
        let ghost before = self@;
        self.cache.push(Entry { key, stamp, output });
        assert(self@ =~= before.push(EntryView { key: key@, stamp, output: output@ }));
    }

    /// The first line of an output that holds text, trimmed.
    pub fn first_line(output: &str) -> (r: Option<String>)
        ensures
            match r {
                Some(l) => text_lines(lines_of(output@)).len() > 0 && l@ == text_lines(lines_of(output@))[0],
                None => text_lines(lines_of(output@)).len() == 0,
            },
    {
        let all = Probes::lines(output);
        if all.len() > 0 {
            Some(all[0].clone())
        } else {
            None
        }
    }

    /// The lines of an output that hold text, trimmed.
    pub fn lines(output: &str) -> (r: Vec<String>)
        ensures
            views(r@) == text_lines(lines_of(output@)),
    {
        let ls = lines(output);
        let ghost lv = views(ls@);
        let mut out: Vec<String> = Vec::new();
        let mut i: usize = 0;
        while i < ls.len()
            invariant
                i <= ls@.len(),
                lv == views(ls@),
                views(out@) == text_lines(lv.take(i as int)),
            decreases ls@.len() - i,
        {
            assert(lv.take(i + 1).drop_last() =~= lv.take(i as int));
            let t = trimmed(ls[i].as_str());
            if t.as_str().is_empty() {
            } else {
                let ghost before = views(out@);
                out.push(t);
                assert(views(out@) =~= before.push(trim(lv[i as int])));
            }
            i = i + 1;
        }
        assert(lv.take(i as int) =~= lv);
        out
    }
}

/// What a program printed, as the cache keeps it: its standard output,
/// or its standard error where the output holds no text.
pub open spec fn printed(stdout: Seq<char>, stderr: Seq<char>) -> Seq<char> {
    if has_text(stdout) {
        stdout
    } else {
        stderr
    }
}

/// Picks what a program printed from its two streams.
pub fn chosen_output(stdout: String, stderr: String) -> (r: String)
    ensures
        r@ == printed(stdout@, stderr@),
{
    if not_blank(stdout.as_str()) {
        stdout
    } else {
        stderr
    }
}

/// What a run of a program gave: its two output streams, or nothing where
/// it could not be started.
pub enum Captured {
    Started { stdout: String, stderr: String },
    NotStarted,
}

/// The text a run keeps: what the program printed, or nothing where it
/// could not be started.
pub open spec fn captured_text(c: Captured) -> Seq<char> {
    match c {
        Captured::Started { stdout, stderr } => printed(stdout@, stderr@),
        Captured::NotStarted => Seq::empty(),
    }
}

/// The key a program and its arguments are cached under.
pub open spec fn key_of(program: Seq<char>, args: Seq<Seq<char>>) -> Seq<char> {
    program + "|"@ + crate::text::joined(args, " "@)
}

/// One run of the program keyed `key`, with its file at `stamp`, from the
/// cache `cache`: the answer the cache holds, with the cache unchanged and
/// no program started; or, where it holds none, `captured`, what running
/// the program gave, recorded under the key and stamp.
pub open spec fn run_step(cache: Seq<EntryView>, key: Seq<char>, stamp: Option<Stamp>, captured: Seq<char>) -> (
    Seq<char>,
    Seq<EntryView>,
) {
    match answer(cache, key, stamp) {
        Some(x) => (x, cache),
        None => (captured, cache.push(EntryView { key, stamp, output: captured })),
    }
}

impl Probes {
    /// The first half of a run of `program` with `args`, the program file
    /// being at `stamp`: the answer the cache holds, which stands for the
    /// run, or `None` where the program must be run.
    pub fn lookup(&self, program: &str, args: &Vec<String>, stamp: Option<Stamp>) -> (r: Option<String>)
        ensures
            opt_text(r) == answer(self@, key_of(program@, views(args@)), stamp),
            r matches Some(x) ==> forall|c: Seq<char>|
                #[trigger] run_step(self@, key_of(program@, views(args@)), stamp, c) == (x@, self@),
    {
        let key = Probes::key(program, args);
        self.cached(&key, stamp)
    }

    /// The second half of a run the cache could not answer: what the
    /// program gave is recorded and returned.
    pub fn settle(&mut self, program: &str, args: &Vec<String>, stamp: Option<Stamp>, captured: Captured) -> (r: String)
        requires
            answer(old(self)@, key_of(program@, views(args@)), stamp) is None,
        ensures
            (r@, final(self)@) == run_step(old(self)@, key_of(program@, views(args@)), stamp, captured_text(captured)),
    {
        let ghost text = captured_text(captured);
        let output = match captured {
            Captured::Started { stdout, stderr } => chosen_output(stdout, stderr),
            Captured::NotStarted => String::new(),
        };
        let key = Probes::key(program, args);
        let kept = output.clone();
        self.record(key, stamp, output);
        kept
    }
}

/// A run's answer stands until the program changes: a run again with the
/// program file at the same stamp gives the same answer, starts nothing
/// and leaves the cache as it is; a run with the file at another stamp
/// finds nothing cached and keeps what the program gives this time.
pub proof fn law_run_answer_stands(
    cache: Seq<EntryView>,
    key: Seq<char>,
    stamp: Option<Stamp>,
    first: Seq<char>,
    again: Seq<char>,
    other: Option<Stamp>,
)
    requires
        other != stamp,
    ensures
        ({
            let (x, after) = run_step(cache, key, stamp, first);
            &&& run_step(after, key, stamp, again) == (x, after)
            &&& run_step(after, key, other, again) == (again, after.push(EntryView { key, stamp: other, output: again }))
        }),
{
    let (x, after) = run_step(cache, key, stamp, first);
    if answer(cache, key, stamp) is None {
        assert(after.drop_last() =~= cache);
    }
}

/// A program run again with the same arguments is answered from what its
/// last run recorded as long as the program file's stamp is the same; once
/// the stamp changed the cache answers nothing and the program is run anew.
pub proof fn law_probe_answered_until_program_changes(
    cache: Seq<EntryView>,
    key: Seq<char>,
    stamp: Option<Stamp>,
    output: Seq<char>,
    now: Option<Stamp>,
)
    ensures
        now == stamp ==> answer(cache.push(EntryView { key, stamp, output }), key, now) == Some(output),
        now != stamp ==> answer(cache.push(EntryView { key, stamp, output }), key, now) is None,
{
}

/// What was recorded for a key is what the cache answers for it under the
/// same stamp; recording leaves the answers for other keys as they were.
pub proof fn law_cache_read_after_write(
    cache: Seq<EntryView>,
    key: Seq<char>,
    stamp: Option<Stamp>,
    output: Seq<char>,
    other: Seq<char>,
    other_stamp: Option<Stamp>,
)
    requires
        other != key,
    ensures
        answer(cache.push(EntryView { key, stamp, output }), key, stamp) == Some(output),
        answer(cache.push(EntryView { key, stamp, output }), other, other_stamp) == answer(cache, other, other_stamp),
{
    assert(cache.push(EntryView { key, stamp, output }).drop_last() =~= cache);
}

} // verus!
