use vstd::prelude::*;
use crate::text::{
    colons, contains_char, decimal, is_white_space, lemma_segments_len, lemma_trimmed_colons, lemma_parse_decimal, lemma_segments_colon,
    lemma_segments_extend, lemma_segments_keep, lemma_trimmed_unchanged, parse_u64, parsed_u64,
    segments, split_colons, trim, trimmed,
};

verus! {

/// Which numeric field of a lockfile failed to parse.
#[derive(Clone, Copy, Debug, PartialEq, Eq, Structural)]
pub enum NumericField {
    ProcessId,
    Port,
}

/// Why lockfile text could not be read as credentials.
#[derive(Clone, Copy, Debug, PartialEq, Eq, Structural)]
pub enum ParseError {
    /// The text is not `name:pid:port:token:protocol`.
    MalformedFormat,
    /// The process id or the port is not an unsigned 64-bit number.
    InvalidNumericField(NumericField),
}

impl ParseError {
    pub fn message(&self) -> (r: String)
        ensures
            r@ == parse_error_message(*self),
    {
        match self {
            ParseError::MalformedFormat => String::from_str("Lockfile format is invalid!"),
            ParseError::InvalidNumericField(NumericField::ProcessId) => String::from_str(
                "Failed to parse pid as u64",
            ),
            ParseError::InvalidNumericField(NumericField::Port) => String::from_str(
                "Failed to parse port as u64",
            ),
        }
    }
}

pub open spec fn parse_error_message(e: ParseError) -> Seq<char> {
    match e {
        ParseError::MalformedFormat => "Lockfile format is invalid!"@,
        ParseError::InvalidNumericField(NumericField::ProcessId) => "Failed to parse pid as u64"@,
        ParseError::InvalidNumericField(NumericField::Port) => "Failed to parse port as u64"@,
    }
}

/// Connection credentials of a running game client, as its lockfile states them.
#[derive(Debug)]
pub struct LockFileData {
    pub pid: u64,
    pub port: u64,
    pub token: String,
    pub protocol: String,
}

/// The colon-separated fields of lockfile text, after surrounding white space is cut.
pub open spec fn lockfile_fields(content: Seq<char>) -> Seq<Seq<char>> {
    segments(trimmed(content))
}

/// The text has the shape of a lockfile: a colon, and at least five fields.
pub open spec fn well_shaped(content: Seq<char>) -> bool {
    content.contains(':') && lockfile_fields(content).len() >= 5
}

impl LockFileData {
    /// Reads lockfile text `name:pid:port:token:protocol`; fields after the
    /// fifth are ignored.
    pub fn parse_lockfile(content: &str) -> (r: Result<LockFileData, ParseError>)
        ensures
            r == Err::<LockFileData, ParseError>(ParseError::MalformedFormat) <==> !well_shaped(
                content@,
            ),
            r == Err::<LockFileData, ParseError>(
                ParseError::InvalidNumericField(NumericField::ProcessId),
            ) <==> (well_shaped(content@) && parsed_u64(lockfile_fields(content@)[1]) is None),
            r == Err::<LockFileData, ParseError>(ParseError::InvalidNumericField(NumericField::Port))
                <==> (well_shaped(content@) && parsed_u64(lockfile_fields(content@)[1]) is Some
                && parsed_u64(lockfile_fields(content@)[2]) is None),
            r is Ok <==> (well_shaped(content@) && parsed_u64(lockfile_fields(content@)[1]) is Some
                && parsed_u64(lockfile_fields(content@)[2]) is Some),
            segments(content@).len() < 5 ==> r == Err::<LockFileData, ParseError>(
                ParseError::MalformedFormat,
            ),
            well_shaped(content@) && (parsed_u64(lockfile_fields(content@)[1]) is None
                || parsed_u64(lockfile_fields(content@)[2]) is None) ==> (r matches Err(
                ParseError::InvalidNumericField(_),
            )),
            r matches Ok(d) ==> {
                &&& Some(d.pid) == parsed_u64(lockfile_fields(content@)[1])
                &&& Some(d.port) == parsed_u64(lockfile_fields(content@)[2])
                &&& d.token@ == lockfile_fields(content@)[3]
                &&& d.protocol@ == lockfile_fields(content@)[4]
            },
    {
        proof {
            if segments(content@).len() < 5 {
                lemma_few_segments_malformed(content@);
            }
        }
        if !contains_char(content, ':') {
            return Err(ParseError::MalformedFormat);
        }
        let parts = split_colons(trim(content));
        if parts.len() < 5 {
            return Err(ParseError::MalformedFormat);
        }
        let pid = match parse_u64(parts[1].as_str()) {
            Some(v) => v,
            None => return Err(ParseError::InvalidNumericField(NumericField::ProcessId)),
        };
        let port = match parse_u64(parts[2].as_str()) {
            Some(v) => v,
            None => return Err(ParseError::InvalidNumericField(NumericField::Port)),
        };
        let token = parts[3].clone();
        let protocol = parts[4].clone();
        Ok(LockFileData { pid, port, token, protocol })
    }
}

/// The lockfile line `name:pid:port:token:protocol`.
pub open spec fn lockfile_line(
    name: Seq<char>,
    pid: u64,
    port: u64,
    token: Seq<char>,
    protocol: Seq<char>,
) -> Seq<char> {
    name + seq![':'] + decimal(pid as nat) + seq![':'] + decimal(port as nat) + seq![':'] + token
        + seq![':'] + protocol
}

/// A lockfile line written from its fields reads back as those fields: the
/// process id, the port, the token and the protocol, whatever further
/// colon-led fields follow. The fields hold no colon, and the line neither
/// starts nor ends with white space.
pub proof fn lemma_parse_well_formed(
    name: Seq<char>,
    pid: u64,
    port: u64,
    token: Seq<char>,
    protocol: Seq<char>,
    extra: Seq<char>,
)
    requires
        !name.contains(':'),
        !token.contains(':'),
        !protocol.contains(':'),
        extra.len() == 0 || extra[0] == ':',
        !is_white_space((lockfile_line(name, pid, port, token, protocol) + extra)[0]),
        !is_white_space((lockfile_line(name, pid, port, token, protocol) + extra).last()),
    ensures
        ({
            let line = lockfile_line(name, pid, port, token, protocol) + extra;
            &&& well_shaped(line)
            &&& parsed_u64(lockfile_fields(line)[1]) == Some(pid)
            &&& parsed_u64(lockfile_fields(line)[2]) == Some(port)
            &&& lockfile_fields(line)[3] == token
            &&& lockfile_fields(line)[4] == protocol
        }),
{
    let e = Seq::<char>::empty();
    let d1 = decimal(pid as nat);
    let d2 = decimal(port as nat);
    lemma_parse_decimal(pid);
    lemma_parse_decimal(port);
    assert(segments(e) == seq![e]);
    lemma_segments_extend(e, name);
    assert(e + name =~= name);
    assert(segments(name) =~= seq![name]);
    let s1 = name.push(':');
    lemma_segments_colon(name);
    lemma_segments_extend(s1, d1);
    let s2 = s1 + d1;
    assert(segments(s2) =~= seq![name, d1]);
    let s3 = s2.push(':');
    lemma_segments_colon(s2);
    lemma_segments_extend(s3, d2);
    let s4 = s3 + d2;
    assert(segments(s4) =~= seq![name, d1, d2]);
    let s5 = s4.push(':');
    lemma_segments_colon(s4);
    lemma_segments_extend(s5, token);
    let s6 = s5 + token;
    assert(segments(s6) =~= seq![name, d1, d2, token]);
    let s7 = s6.push(':');
    lemma_segments_colon(s6);
    lemma_segments_extend(s7, protocol);
    let s8 = s7 + protocol;
    assert(segments(s8) =~= seq![name, d1, d2, token, protocol]);
    assert(s8 =~= lockfile_line(name, pid, port, token, protocol));
    let line = s8 + extra;
    if extra.len() > 0 {
        lemma_segments_keep(s8, extra);
    } else {
        assert(line =~= s8);
    }
    assert(line[name.len() as int] == ':');
    lemma_trimmed_unchanged(line);
}

/// Text with fewer than five colon-separated pieces is never read as a
/// lockfile, whatever white space surrounds it.
pub proof fn lemma_few_segments_malformed(content: Seq<char>)
    requires
        segments(content).len() < 5,
    ensures
        !well_shaped(content),
{
    lemma_segments_len(content);
    lemma_segments_len(trimmed(content));
    lemma_trimmed_colons(content);
}

} // verus!
