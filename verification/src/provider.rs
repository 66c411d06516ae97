//! The remote transcriber: what it is asked, and how its answers are understood.
use crate::config::result_view;
use crate::error::Error;
use crate::text::trimmed;
use vstd::prelude::*;

verus! {

/// Where recordings are sent.
pub const ENDPOINT: &'static str = "https://api.openai.com/v1/audio/transcriptions";

/// How large a recording may be to be sent, in bytes.
pub const MAX_AUDIO_BYTES: u64 = 25_000_000;

/// What came of a request. Of an answer that is no success, the contents are never looked at.
#[derive(Debug)]
pub enum Response<S = String> {
    Canceled,
    Unread(S),
    Broken(S),
    NotPrepared(S),
    TimedOut,
    Unreachable,
    Answered { status: u16, transcript: Option<S> },
}

impl DeepView for Response {
    type V = Response<Seq<char>>;

    open spec fn deep_view(&self) -> Response<Seq<char>> {
        match *self {
            Response::Canceled => Response::Canceled,
            Response::Unread(words) => Response::Unread(words@),
            Response::Broken(words) => Response::Broken(words@),
            Response::NotPrepared(words) => Response::NotPrepared(words@),
            Response::TimedOut => Response::TimedOut,
            Response::Unreachable => Response::Unreachable,
            Response::Answered { status, transcript } => Response::Answered {
                status,
                transcript: transcript.deep_view(),
            },
        }
    }
}

/// Whether a response is one that a server can give.
pub open spec fn possible(response: Response<Seq<char>>) -> bool {
    response matches Response::Answered { status, .. } ==> 100 <= status < 1000
}

impl Response {
    /// Whether a server can give it.
    pub fn is_possible(&self) -> (answer: bool)
        ensures
            answer == possible(self.deep_view()),
    {
        match self {
            Response::Answered { status, .. } => 100 <= *status && *status < 1000,
            _ => true,
        }
    }
}

/// What is sent with a recording: fields of text, and the recording as a file.
#[derive(Debug)]
pub struct Form {
    pub fields: Vec<(String, String)>,
    pub part: String,
    pub file_name: String,
    pub media_type: String,
}

/// What is sent with a recording, as contracts see it.
#[verifier::ext_equal]
pub struct FormModel {
    pub fields: Seq<(Seq<char>, Seq<char>)>,
    pub part: Seq<char>,
    pub file_name: Seq<char>,
    pub media_type: Seq<char>,
}

impl DeepView for Form {
    type V = FormModel;

    open spec fn deep_view(&self) -> FormModel {
        FormModel {
            fields: self.fields.deep_view(),
            part: self.part@,
            file_name: self.file_name@,
            media_type: self.media_type@,
        }
    }
}

/// What is sent with a recording that a model is to transcribe.
pub open spec fn form_for(model: Seq<char>) -> FormModel {
    FormModel {
        fields: seq![("model"@, model), ("response_format"@, "json"@)],
        part: "file"@,
        file_name: "recording.wav"@,
        media_type: "audio/wav"@,
    }
}

/// What is sent with a recording that a model is to transcribe.
pub fn upload_form(model: &str) -> (form: Form)
    ensures
        form.deep_view() == form_for(model@),
{
    let form = Form {
        fields: vec![
            ("model".to_owned(), model.to_owned()),
            ("response_format".to_owned(), "json".to_owned()),
        ],
        part: "file".to_owned(),
        file_name: "recording.wav".to_owned(),
        media_type: "audio/wav".to_owned(),
    };
    proof {
        assert(form.deep_view() =~= form_for(model@));
    }
    form
}

/// How `reqwest::StatusCode` writes a status: its number and the usual words for it.
pub uninterp spec fn status_line(status: u16) -> Seq<char>;

/// `reqwest::StatusCode`, written out: the same words each time for the same number. Which words
/// those are is left unsaid. Numbers outside the range of statuses are none.
#[verifier::external_body]
fn line_of(status: u16) -> (words: String)
    requires
        100 <= status < 1000,
    ensures
        words@ == status_line(status),
{
    reqwest::StatusCode::from_u16(status).unwrap().to_string()
}

/// Whether a status means success.
pub open spec fn success(status: u16) -> bool {
    200 <= status < 300
}

/// What a status that is no success means, with the line for it.
pub open spec fn status_error(status: u16, line: Seq<char>) -> Error<Seq<char>> {
    if status == 401 {
        Error::KeyRejected
    } else if status == 403 {
        Error::AccessDenied
    } else if status == 404 {
        Error::ModelUnavailable
    } else if status == 413 {
        Error::FileTooLarge
    } else if status == 429 {
        Error::LimitReached
    } else if 500 <= status <= 599 {
        Error::ServiceUnavailable(line)
    } else {
        Error::ServiceRefused(line)
    }
}

/// The words that a response brings, or why there are none.
pub open spec fn understood(response: Response<Seq<char>>) -> Result<Seq<char>, Error<Seq<char>>> {
    match response {
        Response::Canceled => Err(Error::TranscriptionCanceled),
        Response::Unread(words) => Err(Error::UnreadableAudio(words)),
        Response::Broken(words) => Err(Error::Outside(words)),
        Response::NotPrepared(words) => Err(Error::NoConnection(words)),
        Response::TimedOut => Err(Error::RequestTimedOut),
        Response::Unreachable => Err(Error::ConnectionFailed),
        Response::Answered { status, transcript } => if !success(status) {
            Err(status_error(status, status_line(status)))
        } else {
            match transcript {
                Some(words) => Ok(trimmed(words)),
                None => Err(Error::InvalidTranscript),
            }
        },
    }
}

/// What a status that is no success means, with the line for it.
pub fn service_error(status: u16, line: String) -> (error: Error)
    ensures
        error.deep_view() == status_error(status, line@),
{
    if status == 401 {
        Error::KeyRejected
    } else if status == 403 {
        Error::AccessDenied
    } else if status == 404 {
        Error::ModelUnavailable
    } else if status == 413 {
        Error::FileTooLarge
    } else if status == 429 {
        Error::LimitReached
    } else if 500 <= status && status <= 599 {
        Error::ServiceUnavailable(line)
    } else {
        Error::ServiceRefused(line)
    }
}

/// The words that a response brings, or why there are none.
pub fn understand(response: Response) -> (words: Result<String, Error>)
    requires
        possible(response.deep_view()),
    ensures
        result_view(words) == understood(response.deep_view()),
{
    match response {
        Response::Canceled => Err(Error::TranscriptionCanceled),
        Response::Unread(words) => Err(Error::UnreadableAudio(words)),
        Response::Broken(words) => Err(Error::Outside(words)),
        Response::NotPrepared(words) => Err(Error::NoConnection(words)),
        Response::TimedOut => Err(Error::RequestTimedOut),
        Response::Unreachable => Err(Error::ConnectionFailed),
        Response::Answered { status, transcript } => {
            if status < 200 || status >= 300 {
                Err(service_error(status, line_of(status)))
            } else {
                match transcript {
                    Some(words) => Ok(words.as_str().trim().to_owned()),
                    None => Err(Error::InvalidTranscript),
                }
            }
        },
    }
}

/// Why a recording of some size is not sent, if it is not.
pub open spec fn upload_refusal(canceled: bool, size: Result<u64, Seq<char>>) -> Option<
    Error<Seq<char>>,
> {
    if canceled {
        Some(Error::TranscriptionCanceled)
    } else {
        match size {
            Err(words) => Some(Error::UnreadableAudio(words)),
            Ok(size) => if size > MAX_AUDIO_BYTES {
                Some(Error::AudioTooLarge)
            } else {
                None
            },
        }
    }
}

/// Whether a recording of some size may be sent.
pub fn check_upload(canceled: bool, size: &Result<u64, String>) -> (result: Result<(), Error>)
    ensures
        crate::config::refusal_view(result) == upload_refusal(canceled, size_view(*size)),
{
    if canceled {
        return Err(Error::TranscriptionCanceled);
    }
    match size {
        Err(words) => Err(Error::UnreadableAudio(words.clone())),
        Ok(size) => if *size > MAX_AUDIO_BYTES {
            Err(Error::AudioTooLarge)
        } else {
            Ok(())
        },
    }
}

/// A size that could be read, or the words for why not, as contracts see it.
pub open spec fn size_view(size: Result<u64, String>) -> Result<u64, Seq<char>> {
    match size {
        Ok(size) => Ok(size),
        Err(words) => Err(words@),
    }
}

/// What an answer holds that is no success is never told: whatever it is, the error is the same.
pub proof fn law_refusals_tell_nothing(
    status: u16,
    one: Option<Seq<char>>,
    other: Option<Seq<char>>,
)
    requires
        !success(status),
    ensures
        understood(Response::Answered { status, transcript: one }) == understood(
            Response::Answered { status, transcript: other },
        ),
        understood(Response::Answered { status, transcript: one }) is Err,
{
}

/// A recording is sent as a file with the name of the model that is to transcribe it, and the
/// answer is asked for in a form that can be read.
pub proof fn law_model_is_named(model: Seq<char>)
    ensures
        ({
            let form = form_for(model);
            &&& form.fields.len() == 2
            &&& form.fields[0] == ("model"@, model)
            &&& form.fields[1] == ("response_format"@, "json"@)
            &&& form.part == "file"@
            &&& form.file_name == "recording.wav"@
            &&& form.media_type == "audio/wav"@
        }),
{
}

/// Only an answer that is a success brings words, and then its own, without white space around
/// them. What goes wrong on the way is told apart.
pub proof fn law_only_success_brings_words(response: Response<Seq<char>>, words: Seq<char>)
    ensures
        understood(response) matches Ok(text) ==> response is Answered && 200
            <= response->Answered_status <= 299 && response->Answered_transcript is Some && text
            == trimmed(response->Answered_transcript->0),
        understood(Response::Canceled) == Err::<Seq<char>, Error<Seq<char>>>(
            Error::TranscriptionCanceled,
        ),
        understood(Response::Unread(words)) == Err::<Seq<char>, Error<Seq<char>>>(
            Error::UnreadableAudio(words),
        ),
        understood(Response::Broken(words)) == Err::<Seq<char>, Error<Seq<char>>>(
            Error::Outside(words),
        ),
        understood(Response::NotPrepared(words)) == Err::<Seq<char>, Error<Seq<char>>>(
            Error::NoConnection(words),
        ),
        understood(Response::TimedOut) == Err::<Seq<char>, Error<Seq<char>>>(
            Error::RequestTimedOut,
        ),
        understood(Response::Unreachable) == Err::<Seq<char>, Error<Seq<char>>>(
            Error::ConnectionFailed,
        ),
{
}

/// An answer that is no success is told by its status: a key that is not taken, a model that may
/// not be used or is not there, a file that is too large, a limit, a service that is down, or a
/// request that is refused.
pub proof fn law_refusals_are_told_apart(status: u16, transcript: Option<Seq<char>>)
    requires
        !(200 <= status <= 299),
    ensures
        understood(Response::Answered { status, transcript }) matches Err(error) && {
            &&& error is KeyRejected <==> status == 401
            &&& error is AccessDenied <==> status == 403
            &&& error is ModelUnavailable <==> status == 404
            &&& error is FileTooLarge <==> status == 413
            &&& error is LimitReached <==> status == 429
            &&& error is ServiceUnavailable <==> 500 <= status < 600
            &&& error matches Error::ServiceUnavailable(line) ==> line == status_line(status)
            &&& error matches Error::ServiceRefused(line) ==> line == status_line(status)
            &&& status != 401 && status != 403 && status != 404 && status != 413 && status != 429
                && !(500 <= status < 600) ==> error is ServiceRefused
        },
{
}

/// Recordings go to the service's own address for transcriptions.
pub proof fn law_recordings_have_one_destination()
    ensures
        ENDPOINT@ == "https://api.openai.com/v1/audio/transcriptions"@,
{
}

} // verus!
