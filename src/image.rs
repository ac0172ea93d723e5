//! The image capability: sizes, the image configuration, its validation and
//! the shapes of image responses.

use vstd::prelude::*;
use vstd::string::*;
use crate::client::{OpenAI, OpenAIConfig};
use crate::text::{decimal_text, decimal_text_of, same_text};

verus! {

/// How generated images are returned.
#[derive(Clone, Copy, Debug, PartialEq, Eq, Structural)]
pub enum ResponseDataType {
    /// A link to each image.
    Url,
    /// Each image as base64 text.
    Base64Json,
}

/// The wire name of a response data type.
pub open spec fn data_type_name(t: ResponseDataType) -> Seq<char> {
    match t {
        ResponseDataType::Url => "url"@,
        ResponseDataType::Base64Json => "b64_json"@,
    }
}

impl ResponseDataType {
    /// The wire name of this response data type.
    pub fn to_string(&self) -> (r: String)
        ensures
            r@ == data_type_name(*self),
    {
        match self {
            ResponseDataType::Url => String::from_str("url"),
            ResponseDataType::Base64Json => String::from_str("b64_json"),
        }
    }
}

/// The width and height of an image, in pixels.
#[derive(Clone, Copy, Debug, PartialEq, Eq, Structural)]
pub struct Size {
    pub width: u64,
    pub height: u64,
}

/// The wire form of a size: `WIDTHxHEIGHT`.
pub open spec fn size_text(s: Size) -> Seq<char> {
    decimal_text(s.width as nat) + "x"@ + decimal_text(s.height as nat)
}

impl Size {
    pub fn new(width: u64, height: u64) -> (r: Size)
        ensures
            r.width == width,
            r.height == height,
    {
        Size { width, height }
    }

    /// The size with each given dimension replaced.
    pub fn resize(self, width: Option<u64>, height: Option<u64>) -> (r: Size)
        ensures
            r.width == (match width {
                Some(w) => w,
                None => self.width,
            }),
            r.height == (match height {
                Some(h) => h,
                None => self.height,
            }),
    {
        let mut s = self;
        if let Some(w) = width {
            s.width = w;
        }
        if let Some(h) = height {
            s.height = h;
        }
        s
    }

    /// The size as `WIDTHxHEIGHT`.
    pub fn to_string(&self) -> (r: String)
        ensures
            r@ == size_text(*self),
    {
        let w = decimal_text_of(self.width);
        let with_x = w.concat("x");
        let h = decimal_text_of(self.height);
        with_x.concat(h.as_str())
    }
}

/// An image response.
#[derive(Clone, Debug)]
pub struct Response {
    /// When the images were made, in seconds since the epoch.
    pub created: u64,
    pub data: Vec<ImageData>,
}

/// One generated image: a link or base64 text, whichever was asked for.
#[derive(Clone, Debug)]
pub struct ImageData {
    pub url: Option<String>,
    pub b64_json: Option<String>,
}

/// The configuration of an image request.
#[derive(Clone, Debug)]
pub struct Image {
    /// What the images should show.
    pub prompt: Option<String>,
    /// How many images to make, from 1 to 10.
    pub n: Option<u64>,
    /// One of `256x256`, `512x512` and `1024x1024`.
    pub size: Option<String>,
    /// `url` or `b64_json`.
    pub response_format: Option<String>,
    pub user: Option<String>,
    /// The path of the image to edit or vary.
    pub image: Option<String>,
    /// The path of the mask of an edit.
    pub mask: Option<String>,
}

/// Whether `s` is a size the image capability accepts.
pub open spec fn valid_size(s: Seq<char>) -> bool {
    s == "256x256"@ || s == "512x512"@ || s == "1024x1024"@
}

/// Whether `f` is a response format the image capability accepts.
pub open spec fn valid_response_format(f: Seq<char>) -> bool {
    f == "url"@ || f == "b64_json"@
}

/// Whether `n` is a number of images the image capability accepts.
pub open spec fn valid_n(n: u64) -> bool {
    1 <= n <= 10
}

impl Image {
    /// The default number of images, 1.
    pub fn get_default_n() -> (r: u64)
        ensures
            r == 1,
    {
        1
    }

    /// The default size, `1024x1024`.
    pub fn get_default_size() -> (r: &'static str)
        ensures
            r@ == "1024x1024"@,
    {
        "1024x1024"
    }

    /// The default response format, `url`.
    pub fn get_default_response_format() -> (r: &'static str)
        ensures
            r@ == "url"@,
    {
        "url"
    }

    /// Whether `size` is one of `256x256`, `512x512` and `1024x1024`.
    pub fn is_valid_size(size: &str) -> (r: bool)
        ensures
            r == valid_size(size@),
    {
        same_text(size, "256x256") || same_text(size, "512x512") || same_text(size, "1024x1024")
    }

    /// Whether `response_format` is `url` or `b64_json`.
    pub fn is_valid_response_format(response_format: &str) -> (r: bool)
        ensures
            r == valid_response_format(response_format@),
    {
        same_text(response_format, "url") || same_text(response_format, "b64_json")
    }

    /// Whether `n` lies within `[1, 10]`.
    pub fn is_valid_n(n: u64) -> (r: bool)
        ensures
            r == valid_n(n),
    {
        1 <= n && n <= 10
    }
}

impl OpenAIConfig for Image {
    open spec fn is_default(&self) -> bool {
        &&& self.prompt is None
        &&& self.n == Some(1u64)
        &&& self.size is Some && self.size->0@ == "1024x1024"@
        &&& self.response_format is Some && self.response_format->0@ == "url"@
        &&& self.user is None
        &&& self.image is None
        &&& self.mask is None
    }

    fn default() -> (r: Image) {
        Image {
            prompt: None,
            n: Some(Image::get_default_n()),
            size: Some(String::from_str(Image::get_default_size())),
            response_format: Some(String::from_str(Image::get_default_response_format())),
            user: None,
            image: None,
            mask: None,
        }
    }
}

/// The view of an optional string.
pub open spec fn opt_view(o: Option<String>) -> Option<Seq<char>> {
    match o {
        Some(s) => Some(s@),
        None => None,
    }
}

/// The images of a response as the configuration asked for them: the links
/// when the format is `url`, the base64 texts otherwise, skipping images
/// without one.
pub open spec fn chosen_images(data: Seq<ImageData>, urls: bool) -> Seq<Seq<char>>
    decreases data.len(),
{
    if data.len() == 0 {
        Seq::empty()
    } else {
        let prev = chosen_images(data.drop_last(), urls);
        let pick = if urls { data.last().url } else { data.last().b64_json };
        match pick {
            Some(s) => prev.push(s@),
            None => prev,
        }
    }
}

/// A text field of a multipart form: its name and its value.
pub type FormField = (String, String);

/// The view of a list of form fields.
pub open spec fn fields_view(fs: Seq<FormField>) -> Seq<(Seq<char>, Seq<char>)> {
    fs.map_values(|f: FormField| (f.0@, f.1@))
}

/// The text fields of an image upload form, in order: each of prompt,
/// response format, size, number and user that is set.
pub open spec fn image_form_fields(c: Image) -> Seq<(Seq<char>, Seq<char>)> {
    let a: Seq<(Seq<char>, Seq<char>)> = match c.prompt {
        Some(p) => seq![("prompt"@, p@)],
        None => Seq::empty(),
    };
    let b: Seq<(Seq<char>, Seq<char>)> = match c.response_format {
        Some(f) => seq![("response_format"@, f@)],
        None => Seq::empty(),
    };
    let d: Seq<(Seq<char>, Seq<char>)> = match c.size {
        Some(s) => seq![("size"@, s@)],
        None => Seq::empty(),
    };
    let e: Seq<(Seq<char>, Seq<char>)> = match c.n {
        Some(n) => seq![("n"@, decimal_text(n as nat))],
        None => Seq::empty(),
    };
    let f: Seq<(Seq<char>, Seq<char>)> = match c.user {
        Some(u) => seq![("user"@, u@)],
        None => Seq::empty(),
    };
    a + b + d + e + f
}

fn push_field(fields: &mut Vec<FormField>, name: &str, value: String)
    ensures
        fields_view(final(fields)@) == fields_view(old(fields)@).push((name@, value@)),
{
    let ghost before = fields@;
    fields.push((String::from_str(name), value));
    assert(fields_view(fields@) =~= fields_view(before).push((name@, value@)));
}


impl OpenAI<Image> {
    /// The client with `response_format` as the way images come back.
    pub fn set_response_format(self, response_format: &ResponseDataType) -> (r: OpenAI<Image>)
        ensures
            opt_view(r.config.response_format) == Some(data_type_name(*response_format)),
            r.config == (Image { response_format: r.config.response_format, ..self.config }),
            r.api_key == self.api_key,
            r.disable_live_stream == self.disable_live_stream,
    {
        let mut s = self;
        s.config.response_format = Some(response_format.to_string());
        s
    }

    /// The client with `number_of_images` as the number of images to make.
    pub fn set_max_images(self, number_of_images: u64) -> (r: OpenAI<Image>)
        ensures
            r.config.n == Some(number_of_images),
            r.config == (Image { n: r.config.n, ..self.config }),
            r.api_key == self.api_key,
            r.disable_live_stream == self.disable_live_stream,
    {
        let mut s = self;
        s.config.n = Some(number_of_images);
        s
    }

    /// The client with `size` as the size of the images.
    pub fn set_size(self, size: &Size) -> (r: OpenAI<Image>)
        ensures
            opt_view(r.config.size) == Some(size_text(*size)),
            r.config == (Image { size: r.config.size, ..self.config }),
            r.api_key == self.api_key,
            r.disable_live_stream == self.disable_live_stream,
    {
        let mut s = self;
        s.config.size = Some(size.to_string());
        s
    }

    /// Shapes the configuration for making images from `prompt`: the prompt
    /// is set, and no image or mask is sent.
    pub fn prepare_create(&mut self, prompt: &str)
        ensures
            opt_view(final(self).config.prompt) == Some(prompt@),
            final(self).config.image is None,
            final(self).config.mask is None,
            final(self).config == (Image { prompt: final(self).config.prompt, image: final(self).config.image, mask: final(self).config.mask, ..old(self).config }),
            final(self).api_key == old(self).api_key,
            final(self).disable_live_stream == old(self).disable_live_stream,
    {
        self.config.prompt = Some(String::from_str(prompt));
        self.config.image = None;
        self.config.mask = None;
    }

    /// Shapes the configuration for editing the image at `image_file_path`:
    /// the prompt and image are set, the mask where one is given, and a
    /// number, size or format that the capability does not accept goes back
    /// to its default.
    pub fn prepare_edit(&mut self, prompt: &str, image_file_path: &str, mask: Option<&str>)
        ensures
            opt_view(final(self).config.prompt) == Some(prompt@),
            opt_view(final(self).config.image) == Some(image_file_path@),
            mask is Some ==> opt_view(final(self).config.mask) == Some(mask->0@),
            mask is None ==> final(self).config.mask == old(self).config.mask,
            final(self).config.n == (match old(self).config.n {
                Some(n) => if valid_n(n) { Some(n) } else { Some(1u64) },
                None => None,
            }),
            opt_view(final(self).config.size) == (match old(self).config.size {
                Some(s) => if valid_size(s@) { Some(s@) } else { Some("1024x1024"@) },
                None => None,
            }),
            opt_view(final(self).config.response_format) == (match old(self).config.response_format {
                Some(f) => if valid_response_format(f@) { Some(f@) } else { Some("url"@) },
                None => None,
            }),
            final(self).config == (Image { prompt: final(self).config.prompt, image: final(self).config.image, mask: final(self).config.mask, n: final(self).config.n, size: final(self).config.size, response_format: final(self).config.response_format, ..old(self).config }),
            final(self).api_key == old(self).api_key,
            final(self).disable_live_stream == old(self).disable_live_stream,
    {
        self.config.image = Some(String::from_str(image_file_path));
        if let Some(m) = mask {
            self.config.mask = Some(String::from_str(m));
        }
        self.config.prompt = Some(String::from_str(prompt));
        if let Some(n) = self.config.n {
            if !Image::is_valid_n(n) {
                self.config.n = Some(Image::get_default_n());
            }
        }
        let size_ok = match &self.config.size {
            Some(s) => Image::is_valid_size(s.as_str()),
            None => true,
        };
        if !size_ok {
            self.config.size = Some(String::from_str(Image::get_default_size()));
        }
        let format_ok = match &self.config.response_format {
            Some(f) => Image::is_valid_response_format(f.as_str()),
            None => true,
        };
        if !format_ok {
            self.config.response_format = Some(
                String::from_str(Image::get_default_response_format()),
            );
        }
    }

    /// Shapes the configuration for varying the image at `image_file_path`:
    /// the image is set, and no prompt or mask is sent.
    pub fn prepare_variation(&mut self, image_file_path: &str)
        ensures
            opt_view(final(self).config.image) == Some(image_file_path@),
            final(self).config.prompt is None,
            final(self).config.mask is None,
            final(self).config == (Image { image: final(self).config.image, prompt: final(self).config.prompt, mask: final(self).config.mask, ..old(self).config }),
            final(self).api_key == old(self).api_key,
            final(self).disable_live_stream == old(self).disable_live_stream,
    {
        self.config.image = Some(String::from_str(image_file_path));
        self.config.prompt = None;
        self.config.mask = None;
    }

    /// Whether the configuration asks for links rather than base64 texts.
    pub fn wants_urls(&self) -> (r: bool)
        ensures
            r == (opt_view(self.config.response_format) == Some("url"@)),
    {
        match &self.config.response_format {
            Some(f) => same_text(f.as_str(), "url"),
            None => false,
        }
    }

    /// The images of `image_response` as the configuration asked for them.
    pub fn parse_response(&self, image_response: &Response) -> (r: Vec<String>)
        ensures
            r@.map_values(|s: String| s@) == chosen_images(
                image_response.data@,
                opt_view(self.config.response_format) == Some("url"@),
            ),
    {
        let urls = self.wants_urls();
        let mut out: Vec<String> = Vec::new();
        let mut i: usize = 0;
        while i < image_response.data.len()
            invariant
                i <= image_response.data@.len(),
                urls == (opt_view(self.config.response_format) == Some("url"@)),
                out@.map_values(|s: String| s@) == chosen_images(
                    image_response.data@.subrange(0, i as int),
                    urls,
                ),
            decreases image_response.data@.len() - i,
        {
            let d = &image_response.data[i];
            assert(image_response.data@.subrange(0, i + 1).drop_last() =~= image_response.data@.subrange(0, i as int));
            let ghost before = out@;
            let pick = if urls { &d.url } else { &d.b64_json };
            match pick {
                Some(s) => {
                    out.push(s.clone());
                    assert(out@.map_values(|s: String| s@) =~= before.map_values(|s: String| s@).push(
                        out@.last()@,
                    ));
                },
                None => {},
            }
            i = i + 1;
        }
        assert(image_response.data@.subrange(0, image_response.data@.len() as int) =~= image_response.data@);
        out
    }

    /// The text fields of the upload form for an edit or a variation; the
    /// image and the mask go along as files.
    pub fn upload_form_fields(&self) -> (r: Vec<FormField>)
        ensures
            fields_view(r@) == image_form_fields(self.config),
    {
        let mut fields: Vec<FormField> = Vec::new();
        assert(fields_view(fields@) =~= Seq::<(Seq<char>, Seq<char>)>::empty());
        let c = &self.config;
        proof {
            reveal_strlit("prompt");
            reveal_strlit("response_format");
            reveal_strlit("size");
            reveal_strlit("n");
            reveal_strlit("user");
        }
        if let Some(p) = &c.prompt {
            push_field(&mut fields, "prompt", p.clone());
        }
        if let Some(f) = &c.response_format {
            push_field(&mut fields, "response_format", f.clone());
        }
        if let Some(s) = &c.size {
            push_field(&mut fields, "size", s.clone());
        }
        if let Some(n) = c.n {
            push_field(&mut fields, "n", decimal_text_of(n));
        }
        if let Some(u) = &c.user {
            push_field(&mut fields, "user", u.clone());
        }
        assert(fields_view(fields@) =~= image_form_fields(self.config));
        fields
    }
}

} // verus!
