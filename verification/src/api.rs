//! The decision logic of the binary-protocol client: building request
//! sentences, accumulating listed rows from reply words, and the
//! conversation state machine.  The I/O that carries the words lives
//! outside the library.

use vstd::prelude::*;

use crate::RosError;
use crate::ValueFormat;
use crate::resource::RouterOsApiFieldAccess;
use crate::resource::RouterOsResource;
use crate::resource::id_field;
use crate::resource::id_field_spec;
use crate::text::str_eq;
use crate::words::ApiReplyType;
use crate::words::ApiWord;
use crate::words::ApiWordV;
use vstd::string::StringExecFns;

verus! {

/// The words' mathematical shapes, in order.
pub open spec fn word_views(words: Seq<ApiWord>) -> Seq<ApiWordV> {
    words.map_values(|w: ApiWord| w@)
}

/// One attribute word per modified field among the first `i`, in field
/// order, in the binary protocol format.
pub open spec fn attr_words_upto<R: RouterOsApiFieldAccess>(item: R, i: int) -> Seq<ApiWordV>
    decreases i,
{
    if i <= 0 {
        Seq::empty()
    } else {
        attr_words_upto(item, i - 1) + match item.field_modified_spec(i - 1, ValueFormat::Api) {
            Some(v) => seq![ApiWordV::Attribute { key: R::field_name_spec(i - 1), value: v }],
            None => Seq::empty(),
        }
    }
}

/// One attribute word per modified field.
pub open spec fn attr_words<R: RouterOsApiFieldAccess>(item: R) -> Seq<ApiWordV> {
    attr_words_upto(item, R::field_count_spec() as int)
}

/// The id attribute word of an identified item.
pub open spec fn id_attr_word<R: RouterOsApiFieldAccess>(item: R) -> ApiWordV {
    ApiWordV::Attribute {
        key: R::field_name_spec(id_field_spec(item).unwrap()),
        value: item.field_value_spec(id_field_spec(item).unwrap(), ValueFormat::Api),
    }
}

/// Appends one attribute word per modified field, in field order.
fn push_attr_words<R: RouterOsApiFieldAccess>(request: &mut Vec<ApiWord>, resource: &R)
    ensures
        final(request)@.len() >= old(request)@.len(),
        word_views(final(request)@) == word_views(old(request)@) + attr_words(*resource),
{
    let n = R::field_count();
    let ghost base = word_views(request@);
    let mut i: usize = 0;
    while i < n
        invariant
            n == R::field_count_spec(),
            0 <= i <= n,
            request@.len() >= old(request)@.len(),
            word_views(request@) == base + attr_words_upto(
                *resource,
                i as int,
            ),
        decreases n - i,
    {
        match resource.field_modified_value(i, &ValueFormat::Api) {
            Some(v) => {
                let d = R::field_description(i);
                let ghost prev = word_views(request@);
                let w = ApiWord::attribute(d.name, v.as_str());
                let ghost wv = w@;
                request.push(w);
                proof {
                    assert(word_views(request@) =~= prev.push(wv));
                    assert(wv == ApiWordV::Attribute {
                        key: R::field_name_spec(i as int),
                        value: resource.field_modified_spec(i as int, ValueFormat::Api).unwrap(),
                    });
                    assert(attr_words_upto(*resource, i + 1) =~= attr_words_upto(
                        *resource,
                        i as int,
                    ).push(wv));
                    assert(word_views(request@) =~= base + attr_words_upto(
                        *resource,
                        i + 1,
                    ));
                }
            },
            None => {
                proof {
                    assert(word_views(request@) =~= base + attr_words_upto(
                        *resource,
                        i + 1,
                    ));
                }
            },
        }
        i = i + 1;
    }
}

/// The `<path>/<verb>` command word.
fn command_word<R: RouterOsResource>(verb: &str) -> (r: ApiWord)
    ensures
        r@ == ApiWordV::Command(R::resource_path_spec() + verb@),
{
    let path = R::resource_path();
    let mut cmd = path.to_owned();
    cmd.append(verb);
    ApiWord::Command(cmd)
}

/// The request sentence of an update or single-instance write:
/// `<path>/set`, the id attribute when the item has one, then one attribute
/// per modified field.
pub fn set_request_words<R: RouterOsResource>(resource: &R) -> (r: Vec<ApiWord>)
    ensures
        word_views(r@) == seq![
            ApiWordV::Command(R::resource_path_spec() + "/set"@),
        ] + (if id_field_spec(*resource) is Some {
            seq![id_attr_word(*resource)]
        } else {
            Seq::<ApiWordV>::empty()
        }) + attr_words(*resource),
{
    let mut request: Vec<ApiWord> = Vec::new();
    request.push(command_word::<R>("/set"));
    match id_field(resource) {
        Some(i) => {
            proof {
                R::field_layout_wf();
                let c = id_field_spec(*resource).unwrap();
                if c != i as int {
                    assert(R::field_is_id_spec(c) && R::field_is_id_spec(i as int));
                    assert(false);
                }
                assert(id_field_spec(*resource) == Some(i as int));
            }
            let d = R::field_description(i);
            let v = resource.field_api_value(i, &ValueFormat::Api);
            request.push(ApiWord::attribute(d.name, v.as_str()));
        },
        None => {},
    }
    let ghost mid = word_views(request@);
    proof {
        assert(mid =~= seq![ApiWordV::Command(R::resource_path_spec() + "/set"@)] + (
        if id_field_spec(*resource) is Some {
            seq![id_attr_word(*resource)]
        } else {
            Seq::<ApiWordV>::empty()
        }));
    }
    push_attr_words(&mut request, resource);
    request
}

/// The request sentence of an add: `<path>/add` and one attribute per
/// modified field.
pub fn add_request_words<R: RouterOsResource>(resource: &R) -> (r: Vec<ApiWord>)
    ensures
        word_views(r@) == seq![
            ApiWordV::Command(R::resource_path_spec() + "/add"@),
        ] + attr_words(*resource),
{
    let mut request: Vec<ApiWord> = Vec::new();
    request.push(command_word::<R>("/add"));
    proof {
        assert(word_views(request@) =~= seq![
            ApiWordV::Command(R::resource_path_spec() + "/add"@),
        ]);
    }
    push_attr_words(&mut request, resource);
    request
}

/// The request sentence of a delete: `<path>/remove` and the id attribute.
/// An item without an id gives an empty sentence — there is nothing to
/// address, so nothing may be sent.
pub fn delete_request_words<R: RouterOsResource>(resource: &R) -> (r: Vec<ApiWord>)
    ensures
        word_views(r@) == if id_field_spec(*resource) is Some {
            seq![
                ApiWordV::Command(R::resource_path_spec() + "/remove"@),
                id_attr_word(*resource),
            ]
        } else {
            Seq::<ApiWordV>::empty()
        },
{
    let mut request: Vec<ApiWord> = Vec::new();
    match id_field(resource) {
        Some(i) => {
            proof {
                R::field_layout_wf();
                let c = id_field_spec(*resource).unwrap();
                if c != i as int {
                    assert(R::field_is_id_spec(c) && R::field_is_id_spec(i as int));
                    assert(false);
                }
                assert(id_field_spec(*resource) == Some(i as int));
            }
            request.push(command_word::<R>("/remove"));
            let d = R::field_description(i);
            let v = resource.field_api_value(i, &ValueFormat::Api);
            request.push(ApiWord::attribute(d.name, v.as_str()));
            proof {
                assert(word_views(request@) =~= seq![
                    ApiWordV::Command(R::resource_path_spec() + "/remove"@),
                    id_attr_word(*resource),
                ]);
            }
        },
        None => {
            proof {
                assert(word_views(request@) =~= Seq::<ApiWordV>::empty());
            }
        },
    }
    request
}

/// The request sentence of a listing: `<path>/print`.
pub fn list_request_words<R: RouterOsResource>() -> (r: Vec<ApiWord>)
    ensures
        word_views(r@) == seq![
            ApiWordV::Command(R::resource_path_spec() + "/print"@),
        ],
{
    let mut request: Vec<ApiWord> = Vec::new();
    request.push(command_word::<R>("/print"));
    proof {
        assert(word_views(request@) =~= seq![
            ApiWordV::Command(R::resource_path_spec() + "/print"@),
        ]);
    }
    request
}

/// The login request sentence.
pub fn login_request_words(username: &str, password: &str) -> (r: Vec<ApiWord>)
    ensures
        word_views(r@) == seq![
            ApiWordV::Command("login"@),
            ApiWordV::Attribute { key: "name"@, value: username@ },
            ApiWordV::Attribute { key: "password"@, value: password@ },
        ],
{
    let mut request: Vec<ApiWord> = Vec::new();
    request.push(ApiWord::command("login"));
    request.push(ApiWord::attribute("name", username));
    request.push(ApiWord::attribute("password", password));
    proof {
        assert(word_views(request@) =~= seq![
            ApiWordV::Command("login"@),
            ApiWordV::Attribute { key: "name"@, value: username@ },
            ApiWordV::Attribute { key: "password"@, value: password@ },
        ]);
    }
    request
}

/// A login succeeded exactly when the first reply word is `!done`.
pub fn login_succeeded(response: &Vec<ApiWord>) -> (r: bool)
    ensures
        r == (response@.len() > 0 && response@[0]@ == ApiWordV::Reply(ApiReplyType::Done)),
{
    if response.len() > 0 {
        match &response[0] {
            ApiWord::Reply(t) => match t {
                ApiReplyType::Done => true,
                _ => false,
            },
            _ => false,
        }
    } else {
        false
    }
}

/// The conversation state while reading reply words: whether a result row
/// is open, and the row-level failures collected so far.
pub struct TalkState {
    read_data: bool,
    errors: Vec<RosError>,
}

impl TalkState {
    pub closed spec fn read_data_spec(&self) -> bool {
        self.read_data
    }

    /// The row-level failures collected so far, in arrival order.
    pub closed spec fn errors_spec(&self) -> Seq<RosError> {
        self.errors@
    }

    pub open spec fn error_count(&self) -> nat {
        self.errors_spec().len()
    }

    pub fn new() -> (r: TalkState)
        ensures
            !r.read_data_spec(),
            r.error_count() == 0,
    {
        TalkState { read_data: false, errors: Vec::new() }
    }

    /// Notes one received word (`None` is the sentence terminator) and says
    /// whether the conversation is over: a terminator outside a row ends
    /// it; one inside a row only closes the row; a data reply opens a row.
    pub fn on_word(&mut self, word: &Option<ApiWord>) -> (done: bool)
        ensures
            final(self).errors_spec() == old(self).errors_spec(),
            match word {
                None => if old(self).read_data_spec() {
                    done == false && !final(self).read_data_spec()
                } else {
                    done == true && final(self).read_data_spec() == old(self).read_data_spec()
                },
                Some(w) => done == false && if w@ == ApiWordV::Reply(ApiReplyType::Data) {
                    final(self).read_data_spec()
                } else {
                    final(self).read_data_spec() == old(self).read_data_spec()
                },
            },
    {
        match word {
            None => {
                if self.read_data {
                    self.read_data = false;
                    false
                } else {
                    true
                }
            },
            Some(w) => {
                match w {
                    ApiWord::Reply(t) => match t {
                        ApiReplyType::Data => {
                            self.read_data = true;
                        },
                        _ => {},
                    },
                    _ => {},
                }
                false
            },
        }
    }

    /// Keeps a row-level failure for the final report.
    pub fn push_err(&mut self, error: RosError)
        ensures
            final(self).errors_spec() == old(self).errors_spec().push(error),
            final(self).read_data_spec() == old(self).read_data_spec(),
    {
        self.errors.push(error);
    }

    /// The conversation's outcome: success if no row-level failure was
    /// collected, else one umbrella holding exactly the collected failures,
    /// in arrival order.
    pub fn finish(self) -> (r: Result<(), RosError>)
        ensures
            match r {
                Ok(_) => self.errors_spec().len() == 0,
                Err(e) => self.errors_spec().len() > 0 && (e matches RosError::Umbrella(v)
                    && v@ == self.errors_spec()),
            },
    {
        if self.errors.len() == 0 {
            Ok(())
        } else {
            Err(RosError::Umbrella(self.errors))
        }
    }
}


/// The index of the field with this wire name.
pub open spec fn field_index_of<R: RouterOsApiFieldAccess>(key: Seq<char>, i: int) -> Option<
    int,
>
    decreases R::field_count_spec() as int - i,
{
    if i < 0 || i >= R::field_count_spec() {
        None
    } else if R::field_name_spec(i) == key {
        Some(i)
    } else {
        field_index_of::<R>(key, i + 1)
    }
}

proof fn lemma_field_index_props<R: RouterOsApiFieldAccess>(key: Seq<char>, i: int)
    requires
        0 <= i <= R::field_count_spec(),
    ensures
        match field_index_of::<R>(key, i) {
            Some(j) => i <= j < R::field_count_spec() && R::field_name_spec(j) == key && (
            forall|j2: int| i <= j2 < j ==> R::field_name_spec(j2) != key),
            None => forall|j2: int|
                i <= j2 < R::field_count_spec() ==> R::field_name_spec(j2) != key,
        },
    decreases R::field_count_spec() as int - i,
{
    if i < R::field_count_spec() && R::field_name_spec(i) != key {
        lemma_field_index_props::<R>(key, i + 1);
    }
}

/// Finds the field with this wire name.
fn find_field<R: RouterOsApiFieldAccess>(key: &str) -> (r: Option<usize>)
    ensures
        match r {
            Some(j) => field_index_of::<R>(key@, 0) == Some(j as int) && j
                < R::field_count_spec(),
            None => field_index_of::<R>(key@, 0) is None,
        },
{
    let n = R::field_count();
    let mut j: usize = 0;
    while j < n
        invariant
            n == R::field_count_spec(),
            0 <= j <= n,
            forall|j2: int| 0 <= j2 < j ==> R::field_name_spec(j2) != key@,
        decreases n - j,
    {
        let d = R::field_description(j);
        if str_eq(d.name, key) {
            proof {
                lemma_field_index_props::<R>(key@, 0);
                match field_index_of::<R>(key@, 0) {
                    Some(k) => {
                        assert(k == j);
                    },
                    None => {
                        assert(R::field_name_spec(j as int) != key@);
                    },
                }
            }
            return Some(j);
        }
        j = j + 1;
    }
    proof {
        lemma_field_index_props::<R>(key@, 0);
        if field_index_of::<R>(key@, 0) is Some {
            let k = field_index_of::<R>(key@, 0).unwrap();
            assert(R::field_name_spec(k) != key@);
        }
    }
    None
}

/// One attribute of a failed row, kept for the final report.
#[derive(Debug)]
pub struct AttrPair {
    pub key: String,
    pub value: String,
}

/// The pairs' texts, in order.
pub open spec fn pair_views(pairs: Seq<AttrPair>) -> Seq<(Seq<char>, Seq<char>)> {
    pairs.map_values(|p: AttrPair| (p.key@, p.value@))
}

/// The first value stored under `key`.
pub open spec fn pairs_get(pairs: Seq<(Seq<char>, Seq<char>)>, key: Seq<char>) -> Option<
    Seq<char>,
>
    decreases pairs.len(),
{
    if pairs.len() == 0 {
        None
    } else if pairs[0].0 == key {
        Some(pairs[0].1)
    } else {
        pairs_get(pairs.skip(1), key)
    }
}

/// What a listing is building right now: nothing yet, one row's fields, or
/// the attributes of a trap reply.
#[derive(Debug)]
pub enum Collecting<R> {
    Idle,
    Building(R),
    Failing(Vec<AttrPair>),
}

/// Accumulates one resource instance per result row of a listing
/// conversation: reply words open rows, attribute words fill them.
#[derive(Debug)]
pub struct ListCollector<R: RouterOsResource> {
    current: Collecting<R>,
    rows: Vec<R>,
}

impl<R: RouterOsResource> ListCollector<R> {
    /// The completed rows so far.
    pub closed spec fn rows_spec(&self) -> Seq<R> {
        self.rows@
    }

    /// What is being built right now.
    pub closed spec fn current_spec(&self) -> Collecting<R> {
        self.current
    }

    pub fn new() -> (r: Self)
        ensures
            r.rows_spec().len() == 0,
            r.current_spec() is Idle,
    {
        ListCollector { current: Collecting::Idle, rows: Vec::new() }
    }

    /// Consumes one word of the reply stream.  A reply word closes the row
    /// in progress (pushing a built row; judging a trap by whether its
    /// message is the well-known `no such command prefix`, which means the
    /// whole category is absent and is no failure) and opens the next: a
    /// fresh row after `!done`/`!re`, a trap record after `!trap`/`!fatal`.
    /// An attribute word writes into the open row; a key naming no field is
    /// a failure.  Other words pass by.
    pub fn on_word(&mut self, word: ApiWord) -> (r: Result<(), RosError>)
        ensures
            match word@ {
                ApiWordV::Command(_) | ApiWordV::ApiAttribute { .. } | ApiWordV::Query(_) => r
                    is Ok && *final(self) == *old(self),
                ApiWordV::Attribute { key, value } => final(self).rows_spec() == old(self).rows_spec() && match old(self).current_spec() {
                    Collecting::Idle => r is Ok && final(self).current_spec() is Idle,
                    Collecting::Failing(m) => r is Ok && match final(self).current_spec() {
                        Collecting::Failing(m2) => pair_views(m2@) == pair_views(m@).push(
                            (key, value),
                        ),
                        _ => false,
                    },
                    Collecting::Building(item) => match field_index_of::<R>(key, 0) {
                        None => (r matches Err(e) && e matches RosError::FieldMissingError {
                            field_name,
                            field_value,
                        } && field_name@ == key && field_value@ == value) && final(self).current_spec() == old(self).current_spec(),
                        Some(j) => (r is Ok) == R::field_accepts_spec(j, value) && (
                        r matches Err(e) ==> e matches RosError::FieldWriteError {
                            field_name,
                            field_value,
                            error,
                        } && field_name@ == key && field_value@ == value) && match final(self).current_spec() {
                            Collecting::Building(item2) => item2.field_orig_spec(j) == value
                                && (forall|j2: int|
                                0 <= j2 < R::field_count_spec() && j2 != j
                                    ==> item2.field_orig_spec(j2) == (
                                #[trigger] item.field_orig_spec(j2))
                                    && item2.field_has_value_spec(j2)
                                    == item.field_has_value_spec(j2)) && (forall|
                                j2: int,
                                f: ValueFormat,
                            |
                                0 <= j2 < R::field_count_spec() && j2 != j
                                    ==> item2.field_modified_spec(j2, f) == (
                                #[trigger] item.field_modified_spec(j2, f))) && (r is Ok
                                ==> forall|f: ValueFormat|
                                item2.field_modified_spec(j, f) is None),
                            _ => false,
                        },
                    },
                },
                ApiWordV::Reply(t) => (match old(self).current_spec() {
                    Collecting::Building(item) => r is Ok && final(self).rows_spec() == old(self).rows_spec().push(item),
                    Collecting::Failing(m) => final(self).rows_spec() == old(self).rows_spec() && (r is Ok <==> pairs_get(pair_views(m@), "message"@)
                        == Some("no such command prefix"@)) && (r matches Err(e)
                        ==> e matches RosError::SimpleMessage(msg) && msg@ == (match pairs_get(
                        pair_views(m@),
                        "message"@,
                    ) {
                        Some(v) => v,
                        None => Seq::<char>::empty(),
                    })),
                    Collecting::Idle => r is Ok && final(self).rows_spec() == old(self).rows_spec(),
                }) && (match t {
                    ApiReplyType::Done | ApiReplyType::Data => match final(self).current_spec() {
                        Collecting::Building(fresh) => crate::resource::resource_empty(fresh)
                            && forall|j: int, f: ValueFormat|
                            0 <= j < R::field_count_spec() ==> fresh.field_modified_spec(
                                j,
                                f,
                            ) is None,
                        _ => false,
                    },
                    ApiReplyType::Trap | ApiReplyType::Fatal => match final(self).current_spec() {
                        Collecting::Failing(m2) => m2@.len() == 0,
                        _ => false,
                    },
                }),
            },
    {
        match word {
            ApiWord::Command(_) => Ok(()),
            ApiWord::ApiAttribute { .. } => Ok(()),
            ApiWord::Query(_) => Ok(()),
            ApiWord::Attribute { key, value } => {
                let mut cur = Collecting::Idle;
                core::mem::swap(&mut cur, &mut self.current);
                match cur {
                    Collecting::Idle => {
                        self.current = Collecting::Idle;
                        Ok(())
                    },
                    Collecting::Failing(mut m) => {
                        let ghost pre = pair_views(m@);
                        m.push(AttrPair { key, value });
                        proof {
                            assert(pair_views(m@) =~= pre.push((key@, value@)));
                        }
                        self.current = Collecting::Failing(m);
                        Ok(())
                    },
                    Collecting::Building(mut item) => {
                        match find_field::<R>(key.as_str()) {
                            Some(j) => {
                                let out = match item.field_set_from_api(j, value.as_str()) {
                                    Ok(_) => Ok(()),
                                    Err(e) => Err(
                                        RosError::FieldWriteError {
                                            field_name: key,
                                            field_value: value,
                                            error: Box::new(e),
                                        },
                                    ),
                                };
                                self.current = Collecting::Building(item);
                                out
                            },
                            None => {
                                self.current = Collecting::Building(item);
                                Err(RosError::field_missing_error(key, value))
                            },
                        }
                    },
                }
            },
            ApiWord::Reply(t) => {
                let mut cur = match t {
                    ApiReplyType::Done | ApiReplyType::Data => Collecting::Building(
                        R::new_default(),
                    ),
                    ApiReplyType::Trap | ApiReplyType::Fatal => Collecting::Failing(
                        Vec::new(),
                    ),
                };
                core::mem::swap(&mut cur, &mut self.current);
                match cur {
                    Collecting::Building(item) => {
                        self.rows.push(item);
                        Ok(())
                    },
                    Collecting::Failing(m) => {
                        let message = pairs_find(&m, "message");
                        match message {
                            Some(v) => {
                                if str_eq(v.as_str(), "no such command prefix") {
                                    Ok(())
                                } else {
                                    Err(RosError::SimpleMessage(v))
                                }
                            },
                            None => {
                                let empty = String::new();
                                Err(RosError::SimpleMessage(empty))
                            },
                        }
                    },
                    Collecting::Idle => Ok(()),
                }
            },
        }
    }

    /// The rows collected; a row still in progress (none, once the final
    /// reply word has been seen) is discarded.
    pub fn finish(self) -> (r: Vec<R>)
        ensures
            r@ == self.rows_spec(),
    {
        self.rows
    }
}

/// The first value stored under `key`, as `pairs_get` says.
fn pairs_find(pairs: &Vec<AttrPair>, key: &str) -> (r: Option<String>)
    ensures
        match (r, pairs_get(pair_views(pairs@), key@)) {
            (Some(a), Some(b)) => a@ == b,
            (None, None) => true,
            _ => false,
        },
{
    let n = pairs.len();
    let mut i: usize = 0;
    proof {
        assert(pair_views(pairs@).skip(0) =~= pair_views(pairs@));
    }
    while i < n
        invariant
            n == pairs@.len(),
            pair_views(pairs@).len() == n,
            0 <= i <= n,
            pairs_get(pair_views(pairs@), key@) == pairs_get(
                pair_views(pairs@).skip(i as int),
                key@,
            ),
        decreases n - i,
    {
        proof {
            let pv = pair_views(pairs@);
            assert(pv.skip(i as int)[0] == pv[i as int]);
            assert(pv[i as int] == (pairs@[i as int].key@, pairs@[i as int].value@));
            assert(pv.skip(i as int).skip(1) =~= pv.skip(i + 1));
        }
        if str_eq(pairs[i].key.as_str(), key) {
            return Some(pairs[i].value.clone());
        }
        i = i + 1;
    }
    proof {
        assert(pair_views(pairs@).skip(n as int) =~= Seq::<(Seq<char>, Seq<char>)>::empty());
    }
    None
}

} // verus!
