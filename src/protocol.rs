use vstd::prelude::*;

verus! {

/// What the metadata POST answered.
#[derive(Debug)]
pub struct MetadataReply {
    pub status: u16,
    /// The response body, where one was read.
    pub body: Option<String>,
}

/// What an upload does after its metadata POST.
#[derive(Debug, PartialEq, Eq)]
pub enum NextStep {
    /// PUT the file's content to this URL.
    PutContent(String),
    /// The entry is done, successfully or not.
    Complete(bool),
}

pub enum NextStepView {
    PutContent(Seq<char>),
    Complete(bool),
}

impl View for NextStep {
    type V = NextStepView;

    open spec fn view(&self) -> NextStepView {
        match self {
            NextStep::PutContent(u) => NextStepView::PutContent(u@),
            NextStep::Complete(b) => NextStepView::Complete(*b),
        }
    }
}

/// Whether a string is a valid absolute URL.
pub uninterp spec fn is_absolute_url(s: Seq<char>) -> bool;

/// Relies on reqwest::Url::parse (the url crate's parser), which accepts
/// exactly the absolute URLs: the answer depends on the string alone.
#[verifier::external_body]
fn parses_as_url(s: &str) -> (r: bool)
    ensures
        r == is_absolute_url(s@),
{
    reqwest::Url::parse(s).is_ok()
}

/// The upload URL that a reply registers: the body of an HTTP 200 reply, where
/// it is not empty.
pub open spec fn offered_url(reply: Option<MetadataReply>) -> Option<Seq<char>> {
    match reply {
        Some(r) => if r.status == 200 {
            match r.body {
                Some(b) => if b@.len() > 0 {
                    Some(b@)
                } else {
                    None
                },
                None => None,
            }
        } else {
            None
        },
        None => None,
    }
}

/// The step after the metadata POST, given whether the offered URL parses.
pub open spec fn step_after_metadata(
    is_directory: bool,
    reply: Option<MetadataReply>,
    url_valid: bool,
) -> NextStepView {
    if is_directory {
        NextStepView::Complete(true)
    } else {
        match offered_url(reply) {
            Some(u) => if url_valid {
                NextStepView::PutContent(u)
            } else {
                NextStepView::Complete(false)
            },
            None => NextStepView::Complete(false),
        }
    }
}

/// The step after the metadata POST, `reply` being `None` where the request
/// failed in transport and `url_valid` telling whether the body of the reply
/// is an absolute URL. A directory placeholder is done and successful
/// whatever came back; a file goes on to its content PUT only on an HTTP 200
/// whose body is a valid absolute URL, and fails otherwise.
pub fn metadata_step(is_directory: bool, reply: &Option<MetadataReply>, url_valid: bool) -> (r: NextStep)
    ensures
        r@ == step_after_metadata(is_directory, *reply, url_valid),
{
    if is_directory {
        return NextStep::Complete(true);
    }
    match reply {
        Some(rep) => {
            if rep.status != 200 {
                return NextStep::Complete(false);
            }
            match &rep.body {
                Some(b) => {
                    if !b.as_str().is_empty() && url_valid {
                        NextStep::PutContent(b.clone())
                    } else {
                        NextStep::Complete(false)
                    }
                },
                None => NextStep::Complete(false),
            }
        },
        None => NextStep::Complete(false),
    }
}

/// The step after the metadata POST: `metadata_step` with the body of the
/// reply checked by the URL parser.
pub fn after_metadata(is_directory: bool, reply: &Option<MetadataReply>) -> (r: NextStep)
    ensures
        r@ == step_after_metadata(
            is_directory,
            *reply,
            match offered_url(*reply) {
                Some(u) => is_absolute_url(u),
                None => false,
            },
        ),
{
    let url_valid = match reply {
        Some(rep) => match &rep.body {
            Some(b) => parses_as_url(b.as_str()),
            None => false,
        },
        None => false,
    };
    metadata_step(is_directory, reply, url_valid)
}

/// Whether an entry whose content PUT has run succeeded: any transport-level
/// success counts, whatever the status of the response.
pub fn content_outcome(transport_ok: bool) -> (r: bool)
    ensures
        r == transport_ok,
{
    transport_ok
}

} // verus!
