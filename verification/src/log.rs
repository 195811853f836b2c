//! The in-memory log shown in the user interface.

use vstd::prelude::*;

verus! {

/// Severity of a log entry.
#[derive(Debug, Clone, Copy, PartialEq, Eq, Structural)]
pub enum LogType {
    Info,
    Warn,
    Error,
    Debug,
}

/// One log entry: its severity and its message.
#[derive(Debug)]
pub struct Log {
    log_type: LogType,
    msg: String,
}

impl View for Log {
    type V = (LogType, Seq<char>);

    closed spec fn view(&self) -> (LogType, Seq<char>) {
        (self.log_type, self.msg@)
    }
}

impl Log {
    pub fn new(log_type: LogType, msg: String) -> (res: Self)
        ensures
            res@ == (log_type, msg@),
    {
        Self { log_type: log_type, msg: msg }
    }

    pub fn log_type(&self) -> (res: LogType)
        ensures
            res == self@.0,
    {
        self.log_type
    }

    pub fn msg(&self) -> (res: &str)
        ensures
            res@ == self@.1,
    {
        self.msg.as_str()
    }

    /// An entry equal to this one.
    fn duplicate(&self) -> (res: Self)
        ensures
            res@ == self@,
    {
        Self { log_type: self.log_type, msg: self.msg.clone() }
    }
}

/// The entries of `logs` whose severity is `t`, in their order.
pub open spec fn of_type(logs: Seq<(LogType, Seq<char>)>, t: LogType) -> Seq<(LogType, Seq<char>)> {
    logs.filter(|e: (LogType, Seq<char>)| e.0 == t)
}

/// What `find_logs` answers for a query: every entry, or those of one severity.
pub open spec fn query(logs: Seq<(LogType, Seq<char>)>, q: Option<LogType>) -> Seq<(LogType, Seq<char>)> {
    match q {
        None => logs,
        Some(t) => of_type(logs, t),
    }
}

/// The log, oldest entry first.
#[derive(Debug)]
pub struct Logs {
    logs: Vec<Log>,
}

/// The views of a sequence of entries.
pub open spec fn entry_views(v: Seq<Log>) -> Seq<(LogType, Seq<char>)> {
    v.map_values(|l: Log| l@)
}

impl View for Logs {
    type V = Seq<(LogType, Seq<char>)>;

    closed spec fn view(&self) -> Seq<(LogType, Seq<char>)> {
        entry_views(self.logs@)
    }
}

impl Logs {
    pub fn new() -> (res: Self)
        ensures
            res@ == Seq::<(LogType, Seq<char>)>::empty(),
    {
        Self { logs: Vec::new() }
    }

    /// Appends an entry at the end.
    pub fn add_log(&mut self, log_type: LogType, msg: String)
        ensures
            final(self)@ == old(self)@.push((log_type, msg@)),
    {
        let ghost before = self.logs@;
        self.logs.push(Log::new(log_type, msg));
        assert(entry_views(self.logs@) =~= entry_views(before).push((log_type, msg@)));
    }

    pub fn len(&self) -> (res: usize)
        ensures
            res == self@.len(),
    {
        self.logs.len()
    }

    pub fn is_empty(&self) -> (res: bool)
        ensures
            res == (self@.len() == 0),
    {
        self.logs.len() == 0
    }

    /// Copies of the entries: all of them for `None`, else those of the given severity.
    pub fn find_logs(&self, log_type: Option<LogType>) -> (res: Vec<Log>)
        ensures
            entry_views(res@) == query(self@, log_type),
    {
        let mut res: Vec<Log> = Vec::new();
        let n = self.logs.len();
        let mut i: usize = 0;
        while i < n
            invariant
                i <= n,
                n == self.logs@.len(),
                entry_views(res@) == query(entry_views(self.logs@).take(i as int), log_type),
            decreases n - i,
        {
            let ghost all = entry_views(self.logs@);
            let ghost before = res@;
            let entry = &self.logs[i];
            assert(all.take(i + 1) =~= all.take(i as int).push(entry@));
            let keep = match log_type {
                None => true,
                Some(t) => entry.log_type == t,
            };
            if keep {
                res.push(entry.duplicate());
                assert(entry_views(res@) =~= entry_views(before).push(entry@));
            }
            proof {
                match log_type {
                    None => {},
                    Some(t) => {
                        lemma_of_type_push(all.take(i as int), t, entry@);
                    },
                }
            }
            i = i + 1;
        }
        assert(entry_views(self.logs@).take(n as int) =~= entry_views(self.logs@));
        res
    }
}

/// A query made after appending an entry answers what it answered before, followed
/// by the new entry when the query selects it.
pub proof fn law_query_after_add(
    logs: Seq<(LogType, Seq<char>)>,
    e: (LogType, Seq<char>),
    q: Option<LogType>,
)
    ensures
        query(logs.push(e), q) == match q {
            None => query(logs, q).push(e),
            Some(t) => if e.0 == t {
                query(logs, q).push(e)
            } else {
                query(logs, q)
            },
        },
{
    match q {
        None => {},
        Some(t) => lemma_of_type_push(logs, t, e),
    }
}

/// Every entry has exactly one severity: the four severity queries together hold as
/// many entries as the whole log.
pub proof fn law_severities_partition(logs: Seq<(LogType, Seq<char>)>)
    ensures
        of_type(logs, LogType::Info).len() + of_type(logs, LogType::Warn).len() + of_type(
            logs,
            LogType::Error,
        ).len() + of_type(logs, LogType::Debug).len() == logs.len(),
    decreases logs.len(),
{
    if logs.len() > 0 {
        let init = logs.drop_last();
        let e = logs.last();
        law_severities_partition(init);
        assert(init.push(e) =~= logs);
        lemma_of_type_push(init, LogType::Info, e);
        lemma_of_type_push(init, LogType::Warn, e);
        lemma_of_type_push(init, LogType::Error, e);
        lemma_of_type_push(init, LogType::Debug, e);
    } else {
        reveal(Seq::filter);
    }
}

/// Filtering by severity after appending `e` adds `e` exactly when it has that severity.
pub proof fn lemma_of_type_push(logs: Seq<(LogType, Seq<char>)>, t: LogType, e: (LogType, Seq<char>))
    ensures
        of_type(logs.push(e), t) == if e.0 == t {
            of_type(logs, t).push(e)
        } else {
            of_type(logs, t)
        },
{
    reveal(Seq::filter);
    assert(logs.push(e).drop_last() =~= logs);
}

} // verus!
