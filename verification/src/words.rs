//! The word grammar of the binary protocol: after the length prefix is
//! stripped, the first characters of a word say whether it is a command, an
//! attribute, a protocol attribute, a query, or a reply.

use vstd::prelude::*;

use crate::RosError;
use crate::text::find_char;
use crate::text::push_char;
use crate::text::spec_find_char;
use crate::text::str_eq;
use crate::text::substring;
use vstd::string::StrSliceExecFns;
use vstd::string::StringExecFns;

verus! {

#[derive(Debug, Clone, Copy, PartialEq, Eq, Structural)]
pub enum ApiReplyType {
    Done,
    Data,
    Trap,
    Fatal,
}

#[derive(Debug, Clone)]
pub enum Query {
    HasValue(String),
    HasNoValue(String),
    Equals { key: String, value: String },
    Lt { key: String, value: String },
    Gt { key: String, value: String },
}

/// One word of the wire protocol.
#[derive(Debug, Clone)]
pub enum ApiWord {
    Command(String),
    Attribute { key: String, value: String },
    ApiAttribute { key: String, value: String },
    Query(Query),
    Reply(ApiReplyType),
}

/// The mathematical shape of a query.
pub ghost enum QueryV {
    HasValue(Seq<char>),
    HasNoValue(Seq<char>),
    Equals { key: Seq<char>, value: Seq<char> },
    Lt { key: Seq<char>, value: Seq<char> },
    Gt { key: Seq<char>, value: Seq<char> },
}

/// The mathematical shape of a word.
pub ghost enum ApiWordV {
    Command(Seq<char>),
    Attribute { key: Seq<char>, value: Seq<char> },
    ApiAttribute { key: Seq<char>, value: Seq<char> },
    Query(QueryV),
    Reply(ApiReplyType),
}

impl View for Query {
    type V = QueryV;

    open spec fn view(&self) -> QueryV {
        match self {
            Query::HasValue(k) => QueryV::HasValue(k@),
            Query::HasNoValue(k) => QueryV::HasNoValue(k@),
            Query::Equals { key, value } => QueryV::Equals { key: key@, value: value@ },
            Query::Lt { key, value } => QueryV::Lt { key: key@, value: value@ },
            Query::Gt { key, value } => QueryV::Gt { key: key@, value: value@ },
        }
    }
}

impl View for ApiWord {
    type V = ApiWordV;

    open spec fn view(&self) -> ApiWordV {
        match self {
            ApiWord::Command(p) => ApiWordV::Command(p@),
            ApiWord::Attribute { key, value } => ApiWordV::Attribute {
                key: key@,
                value: value@,
            },
            ApiWord::ApiAttribute { key, value } => ApiWordV::ApiAttribute {
                key: key@,
                value: value@,
            },
            ApiWord::Query(q) => ApiWordV::Query(q@),
            ApiWord::Reply(t) => ApiWordV::Reply(*t),
        }
    }
}

/// Splits `key=value` at the first `=`; without one, the whole text is the
/// key and there is no value.
pub open spec fn spec_split_kv(s: Seq<char>) -> (Seq<char>, Option<Seq<char>>) {
    match spec_find_char(s, '=') {
        Some(i) => (s.take(i), Some(s.skip(i + 1))),
        None => (s, None),
    }
}

/// What a reply word means: the three known names, anything else fatal.
pub open spec fn spec_reply_of(s: Seq<char>) -> ApiReplyType {
    if s == "done"@ {
        ApiReplyType::Done
    } else if s == "re"@ {
        ApiReplyType::Data
    } else if s == "trap"@ {
        ApiReplyType::Trap
    } else {
        ApiReplyType::Fatal
    }
}

/// The word grammar.  The outer `None` is an unsupported leading character
/// (a protocol-level fatal error); the inner `None` is the empty word that
/// terminates a sentence, and a lone `?`.
pub open spec fn spec_parse_word(s: Seq<char>) -> Option<Option<ApiWordV>> {
    if s.len() == 0 {
        Some(None)
    } else if s[0] == '/' {
        Some(Some(ApiWordV::Command(s.skip(1))))
    } else if s[0] == '=' {
        let (key, value) = spec_split_kv(s.skip(1));
        Some(
            Some(
                ApiWordV::Attribute {
                    key,
                    value: match value {
                        Some(v) => v,
                        None => Seq::empty(),
                    },
                },
            ),
        )
    } else if s[0] == '.' {
        let (key, value) = spec_split_kv(s.skip(1));
        Some(
            Some(
                ApiWordV::ApiAttribute {
                    key,
                    value: match value {
                        Some(v) => v,
                        None => Seq::empty(),
                    },
                },
            ),
        )
    } else if s[0] == '!' {
        Some(Some(ApiWordV::Reply(spec_reply_of(s.skip(1)))))
    } else if s[0] == '?' {
        if s.len() < 2 {
            Some(None)
        } else if s[1] == '-' {
            Some(Some(ApiWordV::Query(QueryV::HasNoValue(s.skip(2)))))
        } else if s[1] == '=' {
            let (key, value) = spec_split_kv(s.skip(2));
            Some(
                Some(
                    ApiWordV::Query(
                        QueryV::Equals {
                            key,
                            value: match value {
                                Some(v) => v,
                                None => Seq::empty(),
                            },
                        },
                    ),
                ),
            )
        } else if s[1] == '<' {
            let (key, value) = spec_split_kv(s.skip(2));
            Some(
                Some(
                    ApiWordV::Query(
                        QueryV::Lt {
                            key,
                            value: match value {
                                Some(v) => v,
                                None => Seq::empty(),
                            },
                        },
                    ),
                ),
            )
        } else if s[1] == '>' {
            let (key, value) = spec_split_kv(s.skip(2));
            Some(
                Some(
                    ApiWordV::Query(
                        QueryV::Gt {
                            key,
                            value: match value {
                                Some(v) => v,
                                None => Seq::empty(),
                            },
                        },
                    ),
                ),
            )
        } else {
            let (key, value) = spec_split_kv(s.skip(1));
            match value {
                Some(v) => Some(Some(ApiWordV::Query(QueryV::Equals { key, value: v }))),
                None => Some(Some(ApiWordV::Query(QueryV::HasValue(key)))),
            }
        }
    } else {
        None
    }
}

/// How a word is written on the wire.
pub open spec fn spec_encode_word(w: ApiWordV) -> Seq<char> {
    match w {
        ApiWordV::Command(p) => seq!['/'] + p,
        ApiWordV::Attribute { key, value } => seq!['='] + key + seq!['='] + value,
        ApiWordV::ApiAttribute { key, value } => seq!['.'] + key + seq!['='] + value,
        ApiWordV::Query(q) => match q {
            QueryV::HasValue(k) => seq!['?'] + k,
            QueryV::HasNoValue(k) => seq!['?', '-'] + k,
            QueryV::Equals { key, value } => seq!['?', '='] + key + seq!['='] + value,
            QueryV::Lt { key, value } => seq!['?', '<'] + key + seq!['='] + value,
            QueryV::Gt { key, value } => seq!['?', '>'] + key + seq!['='] + value,
        },
        ApiWordV::Reply(t) => match t {
            ApiReplyType::Done => "!done"@,
            ApiReplyType::Data => "!re"@,
            ApiReplyType::Trap => "!trap"@,
            ApiReplyType::Fatal => "!fatal"@,
        },
    }
}

/// Splits `key=value` text as `spec_split_kv` says.
fn split_kv(s: &str) -> (r: (String, Option<String>))
    ensures
        ({
            let (k, v) = spec_split_kv(s@);
            r.0@ == k && match (r.1, v) {
                (Some(a), Some(b)) => a@ == b,
                (None, None) => true,
                _ => false,
            }
        }),
{
    let len = s.unicode_len();
    match find_char(s, '=') {
        Some(i) => {
            let key = substring(s, 0, i);
            let value = substring(s, i + 1, len);
            proof {
                assert(key@ =~= s@.take(spec_find_char(s@, '=').unwrap()));
                assert(value@ =~= s@.skip(spec_find_char(s@, '=').unwrap() + 1));
            }
            (key, Some(value))
        },
        None => (s.to_owned(), None),
    }
}

impl ApiWord {
    /// Reads one word.  `Ok(None)` is the empty sentence terminator; an
    /// unsupported leading character is a protocol-level fatal error.
    pub fn parse(word: &str) -> (r: Result<Option<ApiWord>, RosError>)
        ensures
            match r {
                Ok(Some(w)) => spec_parse_word(word@) == Some(Some(w@)),
                Ok(None) => spec_parse_word(word@) == Some(None::<ApiWordV>),
                Err(_) => spec_parse_word(word@) is None,
            },
    {
        let len = word.unicode_len();
        if len == 0 {
            return Ok(None);
        }
        let c0 = word.get_char(0);
        if c0 == '/' {
            let path = substring(word, 1, len);
            proof {
                assert(path@ =~= word@.skip(1));
            }
            Ok(Some(ApiWord::Command(path)))
        } else if c0 == '=' {
            let rest = word.substring_char(1, len);
            proof {
                assert(rest@ =~= word@.skip(1));
            }
            let (key, value) = split_kv(rest);
            let value = match value {
                Some(v) => v,
                None => String::new(),
            };
            Ok(Some(ApiWord::Attribute { key, value }))
        } else if c0 == '.' {
            let rest = word.substring_char(1, len);
            proof {
                assert(rest@ =~= word@.skip(1));
            }
            let (key, value) = split_kv(rest);
            let value = match value {
                Some(v) => v,
                None => String::new(),
            };
            Ok(Some(ApiWord::ApiAttribute { key, value }))
        } else if c0 == '!' {
            let rest = word.substring_char(1, len);
            proof {
                assert(rest@ =~= word@.skip(1));
            }
            let t = if str_eq(rest, "done") {
                ApiReplyType::Done
            } else if str_eq(rest, "re") {
                ApiReplyType::Data
            } else if str_eq(rest, "trap") {
                ApiReplyType::Trap
            } else {
                ApiReplyType::Fatal
            };
            Ok(Some(ApiWord::Reply(t)))
        } else if c0 == '?' {
            if len < 2 {
                return Ok(None);
            }
            let c1 = word.get_char(1);
            if c1 == '-' {
                let key = substring(word, 2, len);
                proof {
                    assert(key@ =~= word@.skip(2));
                }
                Ok(Some(ApiWord::Query(Query::HasNoValue(key))))
            } else if c1 == '=' || c1 == '<' || c1 == '>' {
                let rest = word.substring_char(2, len);
                proof {
                    assert(rest@ =~= word@.skip(2));
                }
                let (key, value) = split_kv(rest);
                let value = match value {
                    Some(v) => v,
                    None => String::new(),
                };
                if c1 == '=' {
                    Ok(Some(ApiWord::Query(Query::Equals { key, value })))
                } else if c1 == '<' {
                    Ok(Some(ApiWord::Query(Query::Lt { key, value })))
                } else {
                    Ok(Some(ApiWord::Query(Query::Gt { key, value })))
                }
            } else {
                let rest = word.substring_char(1, len);
                proof {
                    assert(rest@ =~= word@.skip(1));
                }
                let (key, value) = split_kv(rest);
                match value {
                    Some(v) => Ok(Some(ApiWord::Query(Query::Equals { key, value: v }))),
                    None => Ok(Some(ApiWord::Query(Query::HasValue(key)))),
                }
            }
        } else {
            let mut msg = "unsupported word: ".to_owned();
            msg.append(word);
            Err(RosError::SimpleMessage(msg))
        }
    }

    pub fn command(cmd: &str) -> (r: ApiWord)
        ensures
            r@ == ApiWordV::Command(cmd@),
    {
        ApiWord::Command(cmd.to_owned())
    }

    pub fn attribute(key: &str, value: &str) -> (r: ApiWord)
        ensures
            r@ == (ApiWordV::Attribute { key: key@, value: value@ }),
    {
        ApiWord::Attribute { key: key.to_owned(), value: value.to_owned() }
    }

    /// Writes the word as its wire text.
    pub fn encode(&self) -> (r: String)
        ensures
            r@ == spec_encode_word(self@),
    {
        match self {
            ApiWord::Command(cmd) => {
                let mut out = String::new();
                push_char(&mut out, '/');
                out.append(cmd.as_str());
                proof {
                    assert(out@ =~= spec_encode_word(self@));
                }
                out
            },
            ApiWord::Attribute { key, value } => {
                let mut out = String::new();
                push_char(&mut out, '=');
                out.append(key.as_str());
                push_char(&mut out, '=');
                out.append(value.as_str());
                proof {
                    assert(out@ =~= spec_encode_word(self@));
                }
                out
            },
            ApiWord::ApiAttribute { key, value } => {
                let mut out = String::new();
                push_char(&mut out, '.');
                out.append(key.as_str());
                push_char(&mut out, '=');
                out.append(value.as_str());
                proof {
                    assert(out@ =~= spec_encode_word(self@));
                }
                out
            },
            ApiWord::Query(q) => {
                let mut out = String::new();
                push_char(&mut out, '?');
                match q {
                    Query::HasValue(k) => {
                        out.append(k.as_str());
                    },
                    Query::HasNoValue(k) => {
                        push_char(&mut out, '-');
                        out.append(k.as_str());
                    },
                    Query::Equals { key, value } => {
                        push_char(&mut out, '=');
                        out.append(key.as_str());
                        push_char(&mut out, '=');
                        out.append(value.as_str());
                    },
                    Query::Lt { key, value } => {
                        push_char(&mut out, '<');
                        out.append(key.as_str());
                        push_char(&mut out, '=');
                        out.append(value.as_str());
                    },
                    Query::Gt { key, value } => {
                        push_char(&mut out, '>');
                        out.append(key.as_str());
                        push_char(&mut out, '=');
                        out.append(value.as_str());
                    },
                }
                proof {
                    assert(out@ =~= spec_encode_word(self@));
                }
                out
            },
            ApiWord::Reply(t) => match t {
                ApiReplyType::Done => "!done".to_owned(),
                ApiReplyType::Data => "!re".to_owned(),
                ApiReplyType::Trap => "!trap".to_owned(),
                ApiReplyType::Fatal => "!fatal".to_owned(),
            },
        }
    }
}


/// A word that the grammar can write unambiguously: attribute and query
/// keys hold no `=`, and a bare has-value query key is non-empty and does
/// not begin like another query form.
pub open spec fn word_wf(w: ApiWordV) -> bool {
    match w {
        ApiWordV::Command(_) => true,
        ApiWordV::Attribute { key, value } => !key.contains('='),
        ApiWordV::ApiAttribute { key, value } => !key.contains('='),
        ApiWordV::Reply(_) => true,
        ApiWordV::Query(q) => match q {
            QueryV::HasValue(k) => k.len() > 0 && k[0] != '-' && k[0] != '=' && k[0] != '<'
                && k[0] != '>' && !k.contains('='),
            QueryV::HasNoValue(_) => true,
            QueryV::Equals { key, value } => !key.contains('='),
            QueryV::Lt { key, value } => !key.contains('='),
            QueryV::Gt { key, value } => !key.contains('='),
        },
    }
}

/// Splitting `key=value` at the first `=` recovers an `=`-free key.
proof fn lemma_split_kv_of_join(key: Seq<char>, value: Seq<char>)
    requires
        !key.contains('='),
    ensures
        spec_split_kv(key + seq!['='] + value) == (key, Some(value)),
{
    let s = key + seq!['='] + value;
    assert(s[key.len() as int] == '=');
    assert(forall|j: int| 0 <= j < key.len() ==> s[j] == key[j]);
    assert forall|j: int| 0 <= j < key.len() implies s[j] != '=' by {
        if s[j] == '=' {
            assert(key.contains('='));
        }
    }
    crate::text::lemma_find_char_first(s, '=', key.len() as int);
    assert(s.take(key.len() as int) =~= key);
    assert(s.skip(key.len() as int + 1) =~= value);
}

/// Word round trip: parsing a well-formed word's wire text gives the word
/// back.
pub proof fn lemma_word_round_trip(w: ApiWordV)
    requires
        word_wf(w),
    ensures
        spec_parse_word(spec_encode_word(w)) == Some(Some(w)),
{
    let s = spec_encode_word(w);
    match w {
        ApiWordV::Command(p) => {
            assert(s[0] == '/');
            assert(s.skip(1) =~= p);
        },
        ApiWordV::Attribute { key, value } => {
            assert(s[0] == '=');
            assert(s.skip(1) =~= key + seq!['='] + value);
            lemma_split_kv_of_join(key, value);
        },
        ApiWordV::ApiAttribute { key, value } => {
            assert(s[0] == '.');
            assert(s.skip(1) =~= key + seq!['='] + value);
            lemma_split_kv_of_join(key, value);
        },
        ApiWordV::Reply(t) => {
            reveal_strlit("!done");
            reveal_strlit("!re");
            reveal_strlit("!trap");
            reveal_strlit("!fatal");
            reveal_strlit("done");
            reveal_strlit("re");
            reveal_strlit("trap");
            match t {
                ApiReplyType::Done => {
                    assert(s[0] == '!');
                    assert(s.skip(1) =~= "done"@);
                },
                ApiReplyType::Data => {
                    assert(s[0] == '!');
                    assert(s.skip(1) =~= "re"@);
                    assert("re"@ != "done"@);
                },
                ApiReplyType::Trap => {
                    assert(s[0] == '!');
                    assert(s.skip(1) =~= "trap"@);
                    assert("trap"@ != "done"@ && "trap"@ != "re"@);
                },
                ApiReplyType::Fatal => {
                    assert(s[0] == '!');
                    let rest = s.skip(1);
                    assert(rest.len() == 5);
                    assert(rest != "done"@ && rest != "re"@ && rest != "trap"@);
                },
            }
        },
        ApiWordV::Query(q) => {
            match q {
                QueryV::HasValue(k) => {
                    assert(s[0] == '?');
                    assert(s.len() >= 2);
                    assert(s[1] == k[0]);
                    assert(s.skip(1) =~= k);
                    crate::text::lemma_find_char_absent(k, '=');
                    assert(spec_split_kv(k) == (k, None::<Seq<char>>)) by {
                        if k.contains('=') {
                            assert(false);
                        }
                    }
                },
                QueryV::HasNoValue(k) => {
                    assert(s[0] == '?');
                    assert(s[1] == '-');
                    assert(s.skip(2) =~= k);
                },
                QueryV::Equals { key, value } => {
                    assert(s[0] == '?');
                    assert(s[1] == '=');
                    assert(s.skip(2) =~= key + seq!['='] + value);
                    lemma_split_kv_of_join(key, value);
                },
                QueryV::Lt { key, value } => {
                    assert(s[0] == '?');
                    assert(s[1] == '<');
                    assert(s.skip(2) =~= key + seq!['='] + value);
                    lemma_split_kv_of_join(key, value);
                },
                QueryV::Gt { key, value } => {
                    assert(s[0] == '?');
                    assert(s[1] == '>');
                    assert(s.skip(2) =~= key + seq!['='] + value);
                    lemma_split_kv_of_join(key, value);
                },
            }
        },
    }
}

} // verus!
