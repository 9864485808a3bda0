//! What a user sends: the parts of an input, and images in `data:` URIs.

use crate::text::{
    copy_texts, is_blank, split_once, strip_prefix, strip_suffix, text_equal, trim, trimmed,
};
use base64::Engine;
use vstd::prelude::*;

verus! {

/// What the standard, padded alphabet of `base64` makes of a text: the bytes,
/// or the message of the decoding error.
pub uninterp spec fn decoded_base64(text: Seq<char>) -> Result<Seq<u8>, Seq<char>>;

/// `base64::engine::general_purpose::STANDARD.decode`: the bytes that the text
/// stands for, or the error's message. Both depend on the text alone.
#[verifier::external_body]
fn decode_base64(text: &str) -> (r: Result<Vec<u8>, String>)
    ensures
        match r {
            Ok(bytes) => decoded_base64(text@) == Ok::<Seq<u8>, Seq<char>>(bytes@),
            Err(message) => decoded_base64(text@) == Err::<Seq<u8>, Seq<char>>(message@),
        },
{
    base64::engine::general_purpose::STANDARD.decode(text).map_err(|error| error.to_string())
}

/// One part of a user's input. What is in a part of another kind does not
/// matter here.
#[derive(Debug, PartialEq, Eq)]
pub enum UserInput {
    Text(String),
    Image { uri: String, mime_type: Option<String>, detail: Option<u8> },
    LocalImage { path: String, detail: Option<u8> },
    Audio { uri: String },
    Other(u64),
}

impl UserInput {
    /// A copy of the part.
    pub fn copy(&self) -> (r: UserInput)
        ensures
            r == *self,
    {
        match self {
            UserInput::Text(text) => UserInput::Text(text.clone()),
            UserInput::Image { uri, mime_type, detail } => UserInput::Image {
                uri: uri.clone(),
                mime_type: match mime_type {
                    Some(mime) => Some(mime.clone()),
                    None => None,
                },
                detail: *detail,
            },
            UserInput::LocalImage { path, detail } => UserInput::LocalImage {
                path: path.clone(),
                detail: *detail,
            },
            UserInput::Audio { uri } => UserInput::Audio { uri: uri.clone() },
            UserInput::Other(kind) => UserInput::Other(*kind),
        }
    }
}

/// Why an image could not be taken from a URI.
#[derive(Debug)]
pub enum ImageUriError {
    NotData,
    NoPayload,
    NotBase64,
    Undecodable(String),
}

impl ImageUriError {
    /// A copy of the error.
    pub fn copy(&self) -> (r: ImageUriError)
        ensures
            r == *self,
    {
        match self {
            ImageUriError::NotData => ImageUriError::NotData,
            ImageUriError::NoPayload => ImageUriError::NoPayload,
            ImageUriError::NotBase64 => ImageUriError::NotBase64,
            ImageUriError::Undecodable(error) => ImageUriError::Undecodable(error.clone()),
        }
    }

    /// What the user is told.
    pub open spec fn message_view(self) -> Seq<char> {
        match self {
            ImageUriError::NotData => "only data: image URIs are supported"@,
            ImageUriError::NoPayload => "invalid data URI: missing payload"@,
            ImageUriError::NotBase64 => "only base64-encoded data URIs are supported"@,
            ImageUriError::Undecodable(error) => "failed to decode image data URI: "@ + error@,
        }
    }

    /// What the user is told.
    pub fn message(&self) -> (r: String)
        ensures
            r@ == self.message_view(),
    {
        match self {
            ImageUriError::NotData => "only data: image URIs are supported".to_owned(),
            ImageUriError::NoPayload => "invalid data URI: missing payload".to_owned(),
            ImageUriError::NotBase64 => "only base64-encoded data URIs are supported".to_owned(),
            ImageUriError::Undecodable(error) => "failed to decode image data URI: ".to_owned().concat(
                error.as_str(),
            ),
        }
    }
}

/// The parts of a `data:` URI: `data:header,payload`, with no comma in the
/// header.
pub open spec fn is_data_uri(uri: Seq<char>, header: Seq<char>, payload: Seq<char>) -> bool {
    uri == "data:"@ + header.push(',') + payload && !header.contains(',')
}

/// The media type that a header names: all of it, or what precedes `;base64`.
pub open spec fn header_mime(header: Seq<char>) -> Seq<char> {
    if ";base64"@.is_suffix_of(header) {
        header.take(header.len() - ";base64"@.len())
    } else {
        header
    }
}

/// The media type of an image: the one the client names, unless that is
/// blank, else the header's, else PNG.
pub open spec fn image_mime(mime_type: Option<Seq<char>>, header: Seq<char>) -> Seq<char> {
    if mime_type is Some && trimmed(mime_type->0).len() > 0 {
        mime_type->0
    } else if header_mime(header).len() > 0 {
        header_mime(header)
    } else {
        "image/png"@
    }
}

/// The payload of an image URI and the media type of the image.
#[derive(Debug)]
pub struct ImagePayload {
    pub encoded: String,
    pub mime: String,
}

/// A `data:` URI has one header and one payload.
pub proof fn law_data_uri_parts_are_unique(
    uri: Seq<char>,
    header: Seq<char>,
    payload: Seq<char>,
    other_header: Seq<char>,
    other_payload: Seq<char>,
)
    requires
        is_data_uri(uri, header, payload),
        is_data_uri(uri, other_header, other_payload),
    ensures
        header == other_header,
        payload == other_payload,
{
    let at = "data:"@.len() as int;
    assert(header.len() == other_header.len()) by {
        if header.len() < other_header.len() {
            assert(uri[at + header.len()] == ',');
            assert(uri[at + header.len()] == other_header[header.len() as int]);
            assert(other_header.contains(','));
        } else if other_header.len() < header.len() {
            assert(uri[at + other_header.len()] == ',');
            assert(uri[at + other_header.len()] == header[other_header.len() as int]);
            assert(header.contains(','));
        }
    }
    assert(header =~= uri.subrange(at, at + header.len()));
    assert(other_header =~= uri.subrange(at, at + header.len()));
    assert(payload =~= uri.subrange(at + header.len() + 1, uri.len() as int));
    assert(other_payload =~= uri.subrange(at + header.len() + 1, uri.len() as int));
}

/// Takes an image URI apart. Only base64 payloads are accepted.
pub fn parse_image_uri(uri: &str, mime_type: Option<&str>) -> (r: Result<
    ImagePayload,
    ImageUriError,
>)
    ensures
        match r {
            Ok(image) => exists|header: Seq<char>, payload: Seq<char>|
                {
                    &&& #[trigger] is_data_uri(uri@, header, payload)
                    &&& ";base64"@.is_suffix_of(header)
                    &&& image.encoded@ == trimmed(payload)
                    &&& image.mime@ == image_mime(
                        match mime_type {
                            Some(mime) => Some(mime@),
                            None => None,
                        },
                        header,
                    )
                },
            Err(ImageUriError::NotData) => !"data:"@.is_prefix_of(uri@),
            Err(ImageUriError::NoPayload) => {
                &&& "data:"@.is_prefix_of(uri@)
                &&& forall|header: Seq<char>, payload: Seq<char>|
                    !is_data_uri(uri@, header, payload)
            },
            Err(ImageUriError::NotBase64) => exists|header: Seq<char>, payload: Seq<char>|
                #[trigger] is_data_uri(uri@, header, payload) && !";base64"@.is_suffix_of(header),
            Err(ImageUriError::Undecodable(_)) => false,
        },
{
    let rest = match strip_prefix(uri, "data:") {
        Some(rest) => rest,
        None => {
            return Err(ImageUriError::NotData);
        },
    };
    assert(uri@.subrange(0, "data:"@.len() as int) =~= "data:"@);
    let (header, payload) = match split_once(rest.as_str(), ',') {
        Some(parts) => parts,
        None => {
            assert forall|header: Seq<char>, payload: Seq<char>| !is_data_uri(
                uri@,
                header,
                payload,
            ) by {
                if is_data_uri(uri@, header, payload) {
                    let at = "data:"@.len() as int;
                    assert(uri@[at + header.len()] == ',');
                    assert(uri@.len() == at + header.len() + 1 + payload.len());
                    assert(("data:"@ + rest@)[at + header.len()] == rest@[header.len() as int]);
                    assert(rest@.contains(','));
                }
            }
            return Err(ImageUriError::NoPayload);
        },
    };
    assert(uri@ =~= "data:"@ + header@.push(',') + payload@);
    assert(is_data_uri(uri@, header@, payload@));
    match strip_suffix(header.as_str(), ";base64") {
        None => Err(ImageUriError::NotBase64),
        Some(named) => {
            assert(header@.subrange(named@.len() as int, header@.len() as int) =~= ";base64"@);
            assert(header@.take(header@.len() - ";base64"@.len()) =~= named@);
            let mime = match mime_type {
                Some(mime) => {
                    if is_blank(mime) {
                        None
                    } else {
                        Some(mime.to_owned())
                    }
                },
                None => None,
            };
            let mime = match mime {
                Some(mime) => mime,
                None => {
                    if named.as_str().is_empty() {
                        "image/png".to_owned()
                    } else {
                        named
                    }
                },
            };
            Ok(ImagePayload { encoded: trim(payload.as_str()), mime })
        },
    }
}

/// The file extension for a media type.
pub open spec fn extension_of(mime: Seq<char>) -> Seq<char> {
    if mime == "image/jpeg"@ {
        "jpg"@
    } else if mime == "image/gif"@ {
        "gif"@
    } else if mime == "image/webp"@ {
        "webp"@
    } else {
        "png"@
    }
}

/// The file extension for a media type; PNG for any that is not known.
pub fn image_extension(mime: &str) -> (r: &'static str)
    ensures
        r@ == extension_of(mime@),
{
    if text_equal(mime, "image/jpeg") {
        "jpg"
    } else if text_equal(mime, "image/gif") {
        "gif"
    } else if text_equal(mime, "image/webp") {
        "webp"
    } else {
        "png"
    }
}

/// An image ready to be stored in a file.
#[derive(Debug)]
pub struct ImageFile {
    pub bytes: Vec<u8>,
    pub extension: &'static str,
}

/// What the payload of an image comes to.
pub open spec fn is_image_file(image: ImagePayload, r: Result<ImageFile, ImageUriError>) -> bool {
    match decoded_base64(image.encoded@) {
        Ok(bytes) => r matches Ok(file) && file.bytes@ == bytes && file.extension@
            == extension_of(image.mime@),
        Err(message) => r matches Err(ImageUriError::Undecodable(error)) && error@ == message,
    }
}

/// Decodes the payload of an image.
pub fn decode_image(image: &ImagePayload) -> (r: Result<ImageFile, ImageUriError>)
    ensures
        is_image_file(*image, r),
{
    match decode_base64(image.encoded.as_str()) {
        Ok(bytes) => Ok(ImageFile { bytes, extension: image_extension(image.mime.as_str()) }),
        Err(error) => Err(ImageUriError::Undecodable(error)),
    }
}

/// Takes the image out of a `data:` URI.
pub fn image_from_data_uri(uri: &str, mime_type: Option<&str>) -> (r: Result<
    ImageFile,
    ImageUriError,
>)
    ensures
        match r {
            Err(ImageUriError::NotData) => !"data:"@.is_prefix_of(uri@),
            Err(ImageUriError::NoPayload) => {
                &&& "data:"@.is_prefix_of(uri@)
                &&& forall|header: Seq<char>, payload: Seq<char>|
                    !is_data_uri(uri@, header, payload)
            },
            Err(ImageUriError::NotBase64) => exists|header: Seq<char>, payload: Seq<char>|
                #[trigger] is_data_uri(uri@, header, payload) && !";base64"@.is_suffix_of(header),
            decoded => exists|header: Seq<char>, payload: Seq<char>, image: ImagePayload|
                {
                    &&& #[trigger] is_data_uri(uri@, header, payload)
                    &&& ";base64"@.is_suffix_of(header)
                    &&& image.encoded@ == trimmed(payload)
                    &&& image.mime@ == image_mime(
                        match mime_type {
                            Some(mime) => Some(mime@),
                            None => None,
                        },
                        header,
                    )
                    &&& #[trigger] is_image_file(image, decoded)
                },
        },
{
    match parse_image_uri(uri, mime_type) {
        Ok(image) => decode_image(&image),
        Err(error) => Err(error),
    }
}

/// Why a part of an input is not accepted.
#[derive(Debug)]
pub enum PartRefusal {
    /// Sound is not accepted; the URI of the part.
    Audio(String),
    Image(ImageUriError),
    /// The image could not be stored.
    NotStored(String),
}

impl PartRefusal {
    /// A copy of the refusal.
    pub fn copy(&self) -> (r: PartRefusal)
        ensures
            r == *self,
    {
        match self {
            PartRefusal::Audio(uri) => PartRefusal::Audio(uri.clone()),
            PartRefusal::Image(error) => PartRefusal::Image(error.copy()),
            PartRefusal::NotStored(error) => PartRefusal::NotStored(error.clone()),
        }
    }

    /// What is told of a part that cannot be queued.
    pub open spec fn queue_message_view(self) -> Seq<char> {
        match self {
            PartRefusal::Audio(uri) => "unsupported input modality for queue: "@ + uri@,
            PartRefusal::Image(error) => error.message_view(),
            PartRefusal::NotStored(error) => error@,
        }
    }

    /// What is told of a part that cannot be queued.
    pub fn queue_message(&self) -> (r: String)
        ensures
            r@ == self.queue_message_view(),
    {
        match self {
            PartRefusal::Audio(uri) => "unsupported input modality for queue: ".to_owned().concat(
                uri.as_str(),
            ),
            PartRefusal::Image(error) => error.message(),
            PartRefusal::NotStored(error) => error.clone(),
        }
    }

    /// What is told of a part that cannot start a turn.
    pub open spec fn turn_message_view(self) -> Seq<char> {
        match self {
            PartRefusal::Audio(_) => "audio inputs are not served by canonical turn/start yet"@,
            PartRefusal::Image(error) => "failed to decode image input: "@ + error.message_view(),
            PartRefusal::NotStored(error) => "failed to decode image input: "@ + error@,
        }
    }

    /// What is told of a part that cannot start a turn.
    pub fn turn_message(&self) -> (r: String)
        ensures
            r@ == self.turn_message_view(),
    {
        match self {
            PartRefusal::Audio(_) =>
                "audio inputs are not served by canonical turn/start yet".to_owned(),
            PartRefusal::Image(error) => "failed to decode image input: ".to_owned().concat(
                error.message().as_str(),
            ),
            PartRefusal::NotStored(error) => "failed to decode image input: ".to_owned().concat(
                error.as_str(),
            ),
        }
    }
}

/// Whether a part is taken as it is.
pub open spec fn taken_as_is(part: UserInput) -> bool {
    !(part is Image) && !(part is Audio)
}

/// The parts that an input comes to, or why it is refused: every image turns
/// into a local file, and the first part that cannot be taken refuses the
/// whole input. `stored[k]` is what came of the image number `k`: the path of
/// its file, or why there is none.
pub open spec fn normalized(input: Seq<UserInput>, stored: Seq<Result<String, PartRefusal>>) -> Result<
    Seq<UserInput>,
    PartRefusal,
>
    decreases input.len(),
{
    if input.len() == 0 {
        Ok(Seq::empty())
    } else {
        match normalized(input.drop_last(), stored) {
            Err(refusal) => Err(refusal),
            Ok(done) => match input.last() {
                UserInput::Image { uri, mime_type, detail } => match stored[image_count(
                    input.drop_last(),
                ) as int] {
                    Ok(path) => Ok(done.push(UserInput::LocalImage { path, detail })),
                    Err(refusal) => Err(refusal),
                },
                UserInput::Audio { uri } => Err(PartRefusal::Audio(uri)),
                part => Ok(done.push(part)),
            },
        }
    }
}

/// How many images an input holds.
pub open spec fn image_count(input: Seq<UserInput>) -> nat {
    input.filter(|part: UserInput| part is Image).len()
}

proof fn lemma_normalized_stays_refused(
    input: Seq<UserInput>,
    stored: Seq<Result<String, PartRefusal>>,
    i: int,
)
    requires
        0 <= i <= input.len(),
        normalized(input.take(i), stored) is Err,
    ensures
        normalized(input, stored) == normalized(input.take(i), stored),
    decreases input.len() - i,
{
    if i < input.len() {
        assert(input.take(i + 1).drop_last() =~= input.take(i));
        lemma_normalized_stays_refused(input, stored, i + 1);
    } else {
        assert(input.take(i) =~= input);
    }
}

/// Brings an input into the form in which a turn takes it, given what came of
/// storing its images.
pub fn normalize_user_inputs(
    input: &Vec<UserInput>,
    stored: &Vec<Result<String, PartRefusal>>,
) -> (r: Result<Vec<UserInput>, PartRefusal>)
    requires
        image_count(input@) <= stored@.len(),
    ensures
        match r {
            Ok(parts) => normalized(input@, stored@) == Ok::<Seq<UserInput>, PartRefusal>(parts@),
            Err(refusal) => normalized(input@, stored@) == Err::<Seq<UserInput>, PartRefusal>(
                refusal,
            ),
        },
{
    let ghost is_image = |part: UserInput| part is Image;
    let mut parts: Vec<UserInput> = Vec::new();
    let mut images: usize = 0;
    let mut i: usize = 0;
    assert(input@.take(0) =~= Seq::empty());
    assert(input@.take(0).filter(is_image) =~= Seq::empty());
    while i < input.len()
        invariant
            i <= input@.len(),
            images <= i,
            is_image == (|part: UserInput| part is Image),
            images == input@.take(i as int).filter(is_image).len(),
            image_count(input@) <= stored@.len(),
            normalized(input@.take(i as int), stored@) == Ok::<Seq<UserInput>, PartRefusal>(parts@),
        decreases input@.len() - i,
    {
        proof {
            assert(input@.take(i + 1).drop_last() =~= input@.take(i as int));
            assert(input@.take(i + 1) =~= input@.take(i as int).push(input@[i as int]));
            input@.take(i as int).lemma_filter_push(input@[i as int], is_image);
            lemma_take_filter(input@, i + 1);
            if normalized(input@.take(i + 1), stored@) is Err {
                lemma_normalized_stays_refused(input@, stored@, i + 1);
            }
        }
        match &input[i] {
            UserInput::Image { detail, .. } => {
                match &stored[images] {
                    Ok(path) => {
                        parts.push(UserInput::LocalImage { path: path.clone(), detail: *detail });
                    },
                    Err(refusal) => {
                        return Err(refusal.copy());
                    },
                }
                images = images + 1;
            },
            UserInput::Audio { uri } => {
                return Err(PartRefusal::Audio(uri.clone()));
            },
            part => {
                parts.push(part.copy());
            },
        }
        i = i + 1;
    }
    assert(input@.take(input@.len() as int) =~= input@);
    Ok(parts)
}

proof fn lemma_take_filter(input: Seq<UserInput>, i: int)
    requires
        0 <= i <= input.len(),
    ensures
        image_count(input.take(i)) <= image_count(input),
    decreases input.len() - i,
{
    if i < input.len() {
        let is_image = |part: UserInput| part is Image;
        assert(input.take(i + 1) =~= input.take(i).push(input[i]));
        input.take(i).lemma_filter_push(input[i], is_image);
        lemma_take_filter(input, i + 1);
    } else {
        assert(input.take(i) =~= input);
    }
}

/// An accepted input keeps its parts in order, one for one: text and files
/// stay as they are, images become local files.
pub proof fn law_normalized_input_keeps_its_parts(
    input: Seq<UserInput>,
    stored: Seq<Result<String, PartRefusal>>,
)
    requires
        normalized(input, stored) is Ok,
    ensures
        ({
            let parts = normalized(input, stored)->Ok_0;
            &&& parts.len() == input.len()
            &&& forall|i: int|
                0 <= i < input.len() ==> {
                    &&& !(#[trigger] input[i] is Audio)
                    &&& taken_as_is(input[i]) ==> parts[i] == input[i]
                    &&& input[i] is Image ==> parts[i] is LocalImage
                }
        }),
    decreases input.len(),
{
    if input.len() > 0 {
        law_normalized_input_keeps_its_parts(input.drop_last(), stored);
        let parts = normalized(input, stored)->Ok_0;
        let before = normalized(input.drop_last(), stored)->Ok_0;
        assert forall|i: int| 0 <= i < input.len() implies {
            &&& !(#[trigger] input[i] is Audio)
            &&& taken_as_is(input[i]) ==> parts[i] == input[i]
            &&& input[i] is Image ==> parts[i] is LocalImage
        } by {
            if i < input.len() - 1 {
                assert(input.drop_last()[i] == input[i]);
                assert(parts[i] == before[i]);
            }
        }
    }
}

/// What an input comes to in the workspace of a session: the text for the
/// model, the same in several messages where it has several, and the files of
/// its images.
#[derive(Debug)]
pub struct ResolvedInput {
    pub text: String,
    pub messages: Vec<String>,
    pub images: Vec<String>,
}

/// Whether two inputs come to the same.
pub open spec fn same_resolution(a: ResolvedInput, b: ResolvedInput) -> bool {
    a.text == b.text && a.messages@ == b.messages@ && a.images@ == b.images@
}

/// The messages that a conversation goes on with: those of the input where it
/// has several, else its text.
pub open spec fn prompts_of(resolved: ResolvedInput) -> Seq<String> {
    if resolved.messages@.len() == 0 {
        seq![resolved.text]
    } else {
        resolved.messages@
    }
}

impl ResolvedInput {
    /// A copy of what the input comes to.
    pub fn copy(&self) -> (r: ResolvedInput)
        ensures
            same_resolution(r, *self),
    {
        ResolvedInput {
            text: self.text.clone(),
            messages: copy_texts(&self.messages),
            images: copy_texts(&self.images),
        }
    }

    /// The messages that a conversation goes on with.
    pub fn prompts(&self) -> (r: Vec<String>)
        ensures
            r@ == prompts_of(*self),
    {
        if self.messages.len() == 0 {
            let mut prompts: Vec<String> = Vec::new();
            prompts.push(self.text.clone());
            assert(prompts@ =~= seq![self.text]);
            prompts
        } else {
            copy_texts(&self.messages)
        }
    }
}

/// An input is taken part by part: an image is kept as the file that it was
/// stored in, with its detail, sound is refused, and every other part stays as
/// it is. The first part that cannot be taken refuses the input.
pub proof fn law_parts_are_taken_one_by_one(
    input: Seq<UserInput>,
    stored: Seq<Result<String, PartRefusal>>,
    part: UserInput,
    done: Seq<UserInput>,
)
    requires
        normalized(input, stored) == Ok::<Seq<UserInput>, PartRefusal>(done),
    ensures
        part is Text || part is LocalImage || part is Other ==> normalized(input.push(part), stored)
            == Ok::<Seq<UserInput>, PartRefusal>(done.push(part)),
        part matches UserInput::Audio { uri } ==> normalized(input.push(part), stored) == Err::<
            Seq<UserInput>,
            PartRefusal,
        >(PartRefusal::Audio(uri)),
        part matches UserInput::Image { uri, mime_type, detail } ==> match stored[image_count(
            input,
        ) as int] {
            Ok(path) => normalized(input.push(part), stored) == Ok::<Seq<UserInput>, PartRefusal>(
                done.push(UserInput::LocalImage { path, detail }),
            ),
            Err(refusal) => normalized(input.push(part), stored) == Err::<
                Seq<UserInput>,
                PartRefusal,
            >(refusal),
        },
        normalized(Seq::empty(), stored) == Ok::<Seq<UserInput>, PartRefusal>(Seq::empty()),
{
    assert(input.push(part).drop_last() =~= input);
}

/// Nothing is taken of an input behind a part that cannot be.
pub proof fn law_refused_inputs_stay_refused(
    input: Seq<UserInput>,
    stored: Seq<Result<String, PartRefusal>>,
    part: UserInput,
)
    requires
        normalized(input, stored) is Err,
    ensures
        normalized(input.push(part), stored) == normalized(input, stored),
{
    assert(input.push(part).drop_last() =~= input);
}

/// Images are counted, and nothing else is.
pub proof fn law_images_are_counted(input: Seq<UserInput>, part: UserInput)
    ensures
        image_count(Seq::empty()) == 0,
        part is Image ==> image_count(input.push(part)) == image_count(input) + 1,
        !(part is Image) ==> image_count(input.push(part)) == image_count(input),
{
    reveal(Seq::filter);
    assert(input.push(part).drop_last() =~= input);
}

/// An image is of the type that the client names, else of the one in its header,
/// else a PNG.
pub proof fn law_images_are_of_their_type(mime: Option<Seq<char>>, kind: Seq<char>)
    ensures
        mime is Some && trimmed(mime->0).len() > 0 ==> image_mime(mime, kind + ";base64"@)
            == mime->0,
        (mime is None || trimmed(mime->0).len() == 0) && kind.len() > 0 ==> image_mime(
            mime,
            kind + ";base64"@,
        ) == kind,
        (mime is None || trimmed(mime->0).len() == 0) && kind.len() == 0 ==> image_mime(
            mime,
            kind + ";base64"@,
        ) == "image/png"@,
{
    let header = kind + ";base64"@;
    assert(";base64"@.is_suffix_of(header));
    assert(header.take(header.len() - ";base64"@.len()) =~= kind);
}

/// A file is named by the type of its image; what is no other is a PNG.
pub proof fn law_images_are_named_by_their_type(mime: Seq<char>)
    ensures
        mime == "image/jpeg"@ ==> extension_of(mime) == "jpg"@,
        mime == "image/gif"@ ==> extension_of(mime) == "gif"@,
        mime == "image/webp"@ ==> extension_of(mime) == "webp"@,
        mime != "image/jpeg"@ && mime != "image/gif"@ && mime != "image/webp"@ ==> extension_of(
            mime,
        ) == "png"@,
{
    reveal_strlit("image/jpeg");
    reveal_strlit("image/gif");
    reveal_strlit("image/webp");
    assert("image/jpeg"@.len() == 10 && "image/jpeg"@[6] == 'j');
    assert("image/gif"@.len() == 9);
    assert("image/webp"@.len() == 10 && "image/webp"@[6] == 'w');
}

/// What an input asks is what it was resolved to: its messages, and its text
/// where there are none.
pub proof fn law_inputs_ask_what_they_say(resolved: ResolvedInput)
    ensures
        resolved.messages@.len() > 0 ==> prompts_of(resolved) == resolved.messages@,
        resolved.messages@.len() == 0 ==> prompts_of(resolved).len() == 1 && prompts_of(resolved)[0]
            == resolved.text,
{
}

/// A copy of what an input was resolved to has all of it.
pub proof fn law_resolutions_are_kept_whole(a: ResolvedInput, b: ResolvedInput)
    requires
        same_resolution(a, b),
    ensures
        a.text == b.text,
        a.messages@ == b.messages@,
        a.images@ == b.images@,
        prompts_of(a) == prompts_of(b),
{
}

/// A refused part says what is wrong with it, to a queue and to a turn.
pub proof fn law_refused_parts_say_why(uri: String, error: String)
    ensures
        PartRefusal::Audio(uri).queue_message_view() == "unsupported input modality for queue: "@
            + uri@,
        PartRefusal::NotStored(error).queue_message_view() == error@,
        PartRefusal::NotStored(error).turn_message_view() == "failed to decode image input: "@
            + error@,
        PartRefusal::Image(ImageUriError::Undecodable(error)).turn_message_view()
            == "failed to decode image input: "@ + ("failed to decode image data URI: "@ + error@),
{
}

} // verus!
