use vstd::prelude::*;

verus! {

pub open spec fn cause_separator() -> Seq<char> {
    seq![' ', '|', ' ', 'c', 'a', 'u', 's', 'e', 'd', ' ', 'b', 'y', ':', ' ']
}

/// The messages of an error and of each of its causes in turn, joined by
/// `" | caused by: "`.
pub open spec fn chain_text(messages: Seq<Seq<char>>) -> Seq<char>
    decreases messages.len(),
{
    if messages.len() == 0 {
        seq![]
    } else if messages.len() == 1 {
        messages[0]
    } else {
        chain_text(messages.drop_last()) + cause_separator() + messages.last()
    }
}

pub open spec fn texts(v: Seq<String>) -> Seq<Seq<char>> {
    v.map_values(|s: String| s@)
}

/// Describes an error with every cause it carries: `messages` holds the
/// error's own message first, then the message of each nested cause.
pub fn format_error_chain(messages: &Vec<String>) -> (r: String)
    ensures
        r@ == chain_text(texts(messages@)),
{
    if messages.len() == 0 {
        return String::new();
    }
    let mut out = messages[0].clone();
    let mut i: usize = 1;
    proof {
        reveal_strlit(" | caused by: ");
        assert(texts(messages@).subrange(0, 1) =~= seq![messages@[0]@]);
    }
    let sep = " | caused by: ";
    assert(sep@ =~= cause_separator());
    while i < messages.len()
        invariant
            1 <= i <= messages.len(),
            sep@ == cause_separator(),
            out@ == chain_text(texts(messages@).subrange(0, i as int)),
        decreases messages.len() - i,
    {
        let ghost before = texts(messages@).subrange(0, i as int);
        let ghost next = texts(messages@).subrange(0, i + 1);
        assert(next.drop_last() =~= before);
        assert(next.last() == messages@[i as int]@);
        out.append(sep);
        out.append(messages[i].as_str());
        i = i + 1;
    }
    assert(texts(messages@).subrange(0, messages.len() as int) =~= texts(messages@));
    out
}

/// Severity of a log line, most severe first.
#[derive(Debug)]
pub enum LogLevel {
    Error,
    Warn,
    Info,
    Debug,
    Trace,
}

pub open spec fn pulsar_prefix() -> Seq<char> {
    seq!['p', 'u', 'l', 's', 'a', 'r']
}

pub open spec fn is_broker_target(target: Seq<char>) -> bool {
    target.len() >= 6 && target.subrange(0, 6) == pulsar_prefix()
}

/// The log filter: lines of the broker client's own targets pass only at
/// error level; every other line passes.
pub fn allow_non_pulsar_metadata(target: &str, level: LogLevel) -> (r: bool)
    ensures
        r == (!is_broker_target(target@) || level is Error),
{
    proof {
        reveal_strlit("pulsar");
    }
    let prefix = "pulsar";
    assert(prefix@ =~= pulsar_prefix());
    let n = target.unicode_len();
    let broker = n >= 6 && {
        let head = target.substring_char(0, 6);
        crate::text::same_text(head, prefix)
    };
    if broker {
        match level {
            LogLevel::Error => true,
            _ => false,
        }
    } else {
        true
    }
}

} // verus!
