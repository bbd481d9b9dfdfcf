//! Document node types: durations, execution messages, raw blocks and people.
use vstd::prelude::*;

verus! {

/// The kinds of document node that carry an identifier.
#[derive(Debug, Clone, Copy, PartialEq, Eq, Structural)]
pub enum NodeType {
    Duration,
    ExecutionMessage,
    Person,
    RawBlock,
}

/// The unique part of a node's identifier; empty until one is assigned.
#[derive(Debug, Default)]
pub struct NodeUid {
    pub bytes: Vec<u8>,
}

/// A node identifier: a three-letter nickname of the node type and the node's uid.
#[derive(Debug)]
pub struct NodeId {
    pub nick: Vec<u8>,
    pub uid: Vec<u8>,
}

impl NodeId {
    /// The identifier with nickname `nick` and the bytes of `uid`.
    pub fn new(nick: &[u8], uid: &NodeUid) -> (r: NodeId)
        ensures
            r.nick@ == nick@,
            r.uid@ == uid.bytes@,
    {
        NodeId { nick: slice_to_vec(nick), uid: slice_to_vec(uid.bytes.as_slice()) }
    }
}

fn slice_to_vec(s: &[u8]) -> (r: Vec<u8>)
    ensures
        r@ == s@,
{
    let mut out: Vec<u8> = Vec::new();
    let mut i: usize = 0;
    while i < s.len()
        invariant
            i <= s@.len(),
            out@ == s@.subrange(0, i as int),
        decreases s@.len() - i,
    {
        out.push(s[i]);
        assert(out@ =~= s@.subrange(0, i + 1));
        i = i + 1;
    }
    assert(s@.subrange(0, s@.len() as int) =~= s@);
    out
}

/// The unit of a duration.
#[derive(Debug, Clone, Copy, PartialEq, Eq, Structural)]
pub enum TimeUnit {
    Year,
    Month,
    Week,
    Day,
    Hour,
    Minute,
    Second,
    Millisecond,
    Microsecond,
    Nanosecond,
    Picosecond,
    Femtosecond,
    Attosecond,
}

/// A value that represents the difference between two timestamps.
#[derive(Debug)]
pub struct Duration {
    /// The identifier for this item.
    pub id: Option<String>,
    /// The time difference in `time_unit`s.
    pub value: i64,
    /// The time unit that `value` counts.
    pub time_unit: TimeUnit,
}

impl Duration {
    /// A duration of `value` `time_unit`s, without an identifier.
    pub fn new(value: i64, time_unit: TimeUnit) -> (r: Duration)
        ensures
            r.id is None,
            r.value == value,
            r.time_unit == time_unit,
    {
        Duration { id: None, value, time_unit }
    }
}

/// Under which circumstances a document node should be executed automatically.
#[derive(Debug, Clone, Copy, PartialEq, Eq, Structural)]
pub enum ExecutionRequired {
    No,
    NeverExecuted,
    SemanticsChanged,
    DependenciesChanged,
    DependenciesFailed,
    Failed,
    KernelRestarted,
}

/// A node that has never been executed needs executing.
impl Default for ExecutionRequired {
    fn default() -> (r: ExecutionRequired)
        ensures
            r == ExecutionRequired::NeverExecuted,
    {
        ExecutionRequired::NeverExecuted
    }
}

/// The severity of an execution message.
#[derive(Debug, Clone, Copy, PartialEq, Eq, Structural)]
pub enum ExecutionMessageLevel {
    Trace,
    Debug,
    Info,
    Warning,
    Error,
    Exception,
}

/// Where in a piece of code a message arose.
#[derive(Debug, Default)]
pub struct CodeLocation {
    pub source: Option<String>,
    pub start_line: Option<u64>,
    pub start_column: Option<u64>,
    pub end_line: Option<u64>,
    pub end_column: Option<u64>,
}

/// An error, warning or log message generated while executing a node.
#[derive(Debug)]
pub struct ExecutionMessage {
    pub id: Option<String>,
    pub level: ExecutionMessageLevel,
    pub message: String,
    /// The type of error, e.g. `SyntaxError`.
    pub error_type: Option<String>,
    pub code_location: Option<CodeLocation>,
    pub stack_trace: Option<String>,
    pub uid: NodeUid,
}

/// The nickname in the identifiers of execution messages: `exe`.
pub open spec fn execution_message_nick() -> Seq<u8> {
    seq![101u8, 120u8, 101u8]
}

/// The nickname in the identifiers of raw blocks: `raw`.
pub open spec fn raw_block_nick() -> Seq<u8> {
    seq![114u8, 97u8, 119u8]
}

impl ExecutionMessage {
    pub fn node_type(&self) -> (r: NodeType)
        ensures
            r == NodeType::ExecutionMessage,
    {
        NodeType::ExecutionMessage
    }

    pub fn node_id(&self) -> (r: NodeId)
        ensures
            r.nick@ == execution_message_nick(),
            r.uid@ == self.uid.bytes@,
    {
        let nick: [u8; 3] = [101, 120, 101];
        assert(nick@ =~= execution_message_nick());
        NodeId::new(&nick, &self.uid)
    }

    /// A message at `level`, with nothing else set.
    pub fn new(level: ExecutionMessageLevel, message: String) -> (r: ExecutionMessage)
        ensures
            r.level == level,
            r.message@ == message@,
            r.id is None,
            r.error_type is None,
            r.code_location is None,
            r.stack_trace is None,
            r.uid.bytes@.len() == 0,
    {
        ExecutionMessage {
            id: None,
            level,
            message,
            error_type: None,
            code_location: None,
            stack_trace: None,
            uid: NodeUid { bytes: Vec::new() },
        }
    }
}

/// Text content held as one string.
#[derive(Debug, Default)]
pub struct Cord {
    pub string: String,
}

/// How much of some content came from one kind of source.
#[derive(Debug)]
pub struct ProvenanceCount {
    pub provenance_type: String,
    pub character_count: u64,
    pub character_percent: Option<u64>,
}

/// The optional parts of a raw block.
#[derive(Debug, Default)]
pub struct RawBlockOptions {
    /// The authors of the content.
    pub authors: Option<Vec<Person>>,
    /// A summary of the provenance of the content.
    pub provenance: Option<Vec<ProvenanceCount>>,
}

/// Document content in a specific format.
#[derive(Debug)]
pub struct RawBlock {
    pub id: Option<String>,
    /// The format of the raw content.
    pub format: String,
    /// The raw content.
    pub content: Cord,
    pub options: Box<RawBlockOptions>,
    pub uid: NodeUid,
}

impl RawBlock {
    pub fn node_type(&self) -> (r: NodeType)
        ensures
            r == NodeType::RawBlock,
    {
        NodeType::RawBlock
    }

    pub fn node_id(&self) -> (r: NodeId)
        ensures
            r.nick@ == raw_block_nick(),
            r.uid@ == self.uid.bytes@,
    {
        let nick: [u8; 3] = [114, 97, 119];
        assert(nick@ =~= raw_block_nick());
        NodeId::new(&nick, &self.uid)
    }

    /// A raw block of `content` in `format`, with nothing else set.
    pub fn new(format: String, content: Cord) -> (r: RawBlock)
        ensures
            r.format@ == format@,
            r.content.string@ == content.string@,
            r.id is None,
            r.options.authors is None,
            r.options.provenance is None,
            r.uid.bytes@.len() == 0,
    {
        RawBlock {
            id: None,
            format,
            content,
            options: Box::new(RawBlockOptions { authors: None, provenance: None }),
            uid: NodeUid { bytes: Vec::new() },
        }
    }
}

/// An organization, by name.
#[derive(Debug, Default)]
pub struct Organization {
    pub id: Option<String>,
    pub name: Option<String>,
}

/// A person (alive, dead, undead, or fictional).
#[derive(Debug)]
pub struct Person {
    pub id: Option<String>,
    /// Organizations that the person is affiliated with.
    pub affiliations: Option<Vec<Organization>>,
    /// Family names; in the U.S., the last name of a person.
    pub family_names: Option<Vec<String>>,
    /// Given names; in the U.S., the first name of a person.
    pub given_names: Option<Vec<String>>,
    pub options: Box<PersonOptions>,
}

/// The optional parts of a person.
#[derive(Debug, Default)]
pub struct PersonOptions {
    pub alternate_names: Option<Vec<String>>,
    pub description: Option<String>,
    pub identifiers: Option<Vec<String>>,
    pub name: Option<String>,
    pub url: Option<String>,
    pub address: Option<String>,
    pub emails: Option<Vec<String>>,
    pub honorific_prefix: Option<String>,
    pub honorific_suffix: Option<String>,
    pub job_title: Option<String>,
    pub member_of: Option<Vec<Organization>>,
    pub telephone_numbers: Option<Vec<String>>,
}

impl Person {
    /// A person with nothing known.
    pub fn new() -> (r: Person)
        ensures
            r.id is None,
            r.affiliations is None,
            r.family_names is None,
            r.given_names is None,
            r.options.name is None,
            r.options.emails is None,
    {
        Person {
            id: None,
            affiliations: None,
            family_names: None,
            given_names: None,
            options: Box::new(
                PersonOptions {
                    alternate_names: None,
                    description: None,
                    identifiers: None,
                    name: None,
                    url: None,
                    address: None,
                    emails: None,
                    honorific_prefix: None,
                    honorific_suffix: None,
                    job_title: None,
                    member_of: None,
                    telephone_numbers: None,
                },
            ),
        }
    }
}

} // verus!
