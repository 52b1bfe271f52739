//! How the endpoint is called: the verb, where the query goes, and where the
//! answer keeps its results.

use crate::encode::{url_encode, url_encoded};
use crate::json::Json;
use crate::template::{substitute, substituted};
use vstd::prelude::*;

verus! {

/// The HTTP verb of a call.
#[derive(Debug, Copy, Clone, PartialEq, Eq, Structural)]
pub enum Verb {
    Get,
    Post,
}

/// The description of the endpoint under test.
#[derive(Debug)]
pub struct Configuration {
    verb: Verb,
    url: String,
    body: Option<String>,
    result: String,
}

/// What `Configuration` holds, as mathematical values.
pub struct ConfigurationView {
    pub verb: Verb,
    pub url: Seq<char>,
    pub body: Option<Seq<char>>,
    pub result: Seq<char>,
}

/// One call, ready to be sent.
#[derive(Debug)]
pub struct HttpCall {
    pub verb: Verb,
    pub url: String,
    pub body: Option<String>,
}

/// What `HttpCall` holds, as mathematical values.
pub struct HttpCallView {
    pub verb: Verb,
    pub url: Seq<char>,
    pub body: Option<Seq<char>>,
}

/// A configuration that cannot produce a call.
#[derive(Debug, Copy, Clone, PartialEq, Eq, Structural)]
pub enum ConfigError {
    /// The verb is `Post` and there is no body template.
    MissingBody,
}

/// An answer whose results cannot be read.
#[derive(Debug, Copy, Clone, PartialEq, Eq, Structural)]
pub enum ResponseError {
    /// What the answer keeps under the configured name is not a list.
    NotAList,
    /// The element at this position is not an object with a member `id`.
    MalformedElement(usize),
}

/// The identifier that one element of the results carries: its member `id`.
pub open spec fn element_id(element: Json) -> Option<Json> {
    element.spec_field("id"@)
}

/// The identifiers of all elements of a list in which each has one.
pub open spec fn ids_of(items: Seq<Json>) -> Seq<Json> {
    Seq::new(items.len(), |i: int| element_id(items[i])->0)
}

/// The position of the first element from `from` on that carries no
/// identifier.
pub open spec fn first_without_id(items: Seq<Json>, from: int) -> Option<int>
    decreases items.len() - from,
{
    if from < 0 || from >= items.len() {
        None
    } else if element_id(items[from]) is None {
        Some(from)
    } else {
        first_without_id(items, from + 1)
    }
}

/// What an answer yields when its results are kept under `result`: no
/// identifiers where that member is missing; else the identifiers of the
/// listed elements in their order, provided that the member is a list and
/// every element carries one.
pub open spec fn extraction(result: Seq<char>, response: Json) -> Result<
    Seq<Json>,
    ResponseError,
> {
    match response.spec_field(result) {
        None => Ok(Seq::empty()),
        Some(results) => match results.spec_items() {
            None => Err(ResponseError::NotAList),
            Some(items) => match first_without_id(items, 0) {
                Some(at) => Err(ResponseError::MalformedElement(at as usize)),
                None => Ok(ids_of(items)),
            },
        },
    }
}

/// The values that a sequence of references points to.
pub open spec fn values(references: Seq<&Json>) -> Seq<Json> {
    references.map_values(|reference: &Json| *reference)
}

/// The outcome of an extraction, with the values in place of references.
pub open spec fn ids_view(ids: Result<Vec<&Json>, ResponseError>) -> Result<
    Seq<Json>,
    ResponseError,
> {
    match ids {
        Ok(found) => Ok(values(found@)),
        Err(e) => Err(e),
    }
}

/// `first_without_id` finds the least position without an identifier, and
/// finds none only if every element carries one.
pub proof fn lemma_first_without_id(items: Seq<Json>, from: int)
    requires
        0 <= from,
    ensures
        match first_without_id(items, from) {
            Some(at) => {
                &&& from <= at < items.len()
                &&& element_id(items[at]) is None
                &&& forall|i: int| from <= i < at ==> (#[trigger] element_id(items[i])) is Some
            },
            None => forall|i: int|
                from <= i < items.len() ==> (#[trigger] element_id(items[i])) is Some,
        },
    decreases items.len() - from,
{
    if from < items.len() && element_id(items[from]) is Some {
        lemma_first_without_id(items, from + 1);
    }
}

/// The view of an optional string.
pub open spec fn text_view(text: Option<String>) -> Option<Seq<char>> {
    match text {
        Some(t) => Some(t@),
        None => None,
    }
}

impl View for Configuration {
    type V = ConfigurationView;

    closed spec fn view(&self) -> ConfigurationView {
        ConfigurationView {
            verb: self.verb,
            url: self.url@,
            body: text_view(self.body),
            result: self.result@,
        }
    }
}

impl View for HttpCall {
    type V = HttpCallView;

    open spec fn view(&self) -> HttpCallView {
        HttpCallView { verb: self.verb, url: self.url@, body: text_view(self.body) }
    }
}

impl ConfigurationView {
    /// The call that carries `query`. With `Get` the percent-encoded query
    /// is filled into the URL template and nothing is sent along. With
    /// `Post` the URL is used as it stands and the query is filled, as it
    /// is, into the body template, which must be there.
    pub open spec fn call_for(self, query: Seq<char>) -> Result<HttpCallView, ConfigError> {
        match self.verb {
            Verb::Get => Ok(
                HttpCallView {
                    verb: Verb::Get,
                    url: substituted(self.url, url_encoded(query)),
                    body: None,
                },
            ),
            Verb::Post => match self.body {
                Some(body) => Ok(
                    HttpCallView {
                        verb: Verb::Post,
                        url: self.url,
                        body: Some(substituted(body, query)),
                    },
                ),
                None => Err(ConfigError::MissingBody),
            },
        }
    }
}

/// The view of a prepared call, or the error that stood in its way.
pub open spec fn call_view(call: Result<HttpCall, ConfigError>) -> Result<
    HttpCallView,
    ConfigError,
> {
    match call {
        Ok(c) => Ok(c@),
        Err(e) => Err(e),
    }
}

impl Configuration {
    /// A configuration of these four settings, taken as they are.
    pub fn new(verb: Verb, url: String, body: Option<String>, result: String) -> (conf:
        Configuration)
        ensures
            conf@ == (ConfigurationView {
                verb,
                url: url@,
                body: text_view(body),
                result: result@,
            }),
    {
        Configuration { verb, url, body, result }
    }

    /// The verb of every call.
    pub fn verb(&self) -> (verb: Verb)
        ensures
            verb == self@.verb,
    {
        self.verb
    }

    /// The URL; with `Get`, a template with a placeholder for the query.
    pub fn url(&self) -> (url: &str)
        ensures
            url@ == self@.url,
    {
        self.url.as_str()
    }

    /// The template of the body that `Post` sends, if there is one.
    pub fn body(&self) -> (body: Option<&str>)
        ensures
            match body {
                Some(b) => self@.body == Some(b@),
                None => self@.body is None,
            },
    {
        match &self.body {
            Some(b) => Some(b.as_str()),
            None => None,
        }
    }

    /// The name of the member under which an answer keeps its results.
    pub fn result(&self) -> (result: &str)
        ensures
            result@ == self@.result,
    {
        self.result.as_str()
    }

    /// What the answer keeps under the configured name. An answer without
    /// it points to a mistake in the configuration.
    pub fn result_field<'a>(&self, response: &'a Json) -> (results: Option<&'a Json>)
        ensures
            match results {
                Some(r) => response.spec_field(self@.result) == Some(*r),
                None => response.spec_field(self@.result) is None,
            },
    {
        response.field(self.result.as_str())
    }

    /// Reads the ranked identifiers out of an answer, best first.
    ///
    /// An answer that lacks the configured member yields no identifiers.
    /// Otherwise the member must be a list of objects that each have a
    /// member `id`; the identifiers come back in the order of the list, and
    /// the first element without one is reported.
    pub fn extract_ids<'a>(&self, response: &'a Json) -> (ids: Result<
        Vec<&'a Json>,
        ResponseError,
    >)
        ensures
            ids_view(ids) == extraction(self@.result, *response),
    {
        match self.result_field(response) {
            None => {
                let found: Vec<&'a Json> = Vec::new();
                proof {
                    assert(values(found@) =~= Seq::<Json>::empty());
                }
                Ok(found)
            },
            Some(results) => match results.items() {
                None => Err(ResponseError::NotAList),
                Some(items) => {
                    let mut found: Vec<&'a Json> = Vec::new();
                    let mut at: usize = 0;
                    while at < items.len()
                        invariant
                            response.spec_field(self@.result) == Some(*results),
                            results.spec_items() == Some(items@),
                            at <= items.len(),
                            found@.len() == at,
                            first_without_id(items@, 0) == first_without_id(items@, at as int),
                            forall|i: int|
                                0 <= i < at ==> #[trigger] element_id(items@[i]) == Some(
                                    *found@[i],
                                ),
                        decreases items.len() - at,
                    {
                        match items[at].field("id") {
                            Some(id) => found.push(id),
                            None => {
                                return Err(ResponseError::MalformedElement(at));
                            },
                        }
                        at += 1;
                    }
                    proof {
                        assert(values(found@) =~= ids_of(items@));
                    }
                    Ok(found)
                },
            },
        }
    }

    /// Builds the call that asks the endpoint for `query`.
    pub fn prepare(&self, query: &str) -> (call: Result<HttpCall, ConfigError>)
        ensures
            call_view(call) == self@.call_for(query@),
    {
        match self.verb {
            Verb::Get => {
                let encoded = url_encode(query);
                let url = substitute(self.url.as_str(), encoded.as_str());
                Ok(HttpCall { verb: Verb::Get, url, body: None })
            },
            Verb::Post => match &self.body {
                Some(template) => {
                    let body = substitute(template.as_str(), query);
                    Ok(HttpCall { verb: Verb::Post, url: self.url.clone(), body: Some(body) })
                },
                None => Err(ConfigError::MissingBody),
            },
        }
    }
}

} // verus!
