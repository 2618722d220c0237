//! Image storage logic: upload validation, transformation URLs, the
//! request signature, and filename cleaning. The HTTP upload and
//! delete calls themselves belong to the caller.

use crate::config::CloudinaryConfig;
use crate::crypto::{hex_encode, hex_of, sha1, sha1_of};
use crate::errors::AppError;
use crate::text::{
    char_is_alphanumeric, dec_str_of, push_char, str_eq, u64_to_string, unicode_alphanumeric,
};
use vstd::prelude::*;
use vstd::string::{StrSliceExecFns, StringExecFns};
use vstd::utf8::encode_utf8;

verus! {

/// A stored image as the provider reports it.
pub struct UploadResult {
    pub public_id: String,
    pub url: String,
    pub width: Option<u32>,
    pub height: Option<u32>,
    pub format: String,
    pub bytes: u64,
}

/// The transformations applied when serving an image.
pub struct ImageTransformations {
    pub width: Option<u32>,
    pub height: Option<u32>,
    pub crop: Option<String>,
    pub quality: Option<String>,
    pub format: Option<String>,
}

/// The transformation parts that are present, each rendered with its
/// prefix, in the fixed order width, height, crop, quality, format.
pub open spec fn transform_parts(t: ImageTransformations) -> Seq<Seq<char>> {
    let parts = Seq::<Seq<char>>::empty();
    let parts = match t.width {
        Some(w) => parts.push("w_"@ + dec_str_of(w as nat)),
        None => parts,
    };
    let parts = match t.height {
        Some(h) => parts.push("h_"@ + dec_str_of(h as nat)),
        None => parts,
    };
    let parts = match t.crop {
        Some(c) => parts.push("c_"@ + c@),
        None => parts,
    };
    let parts = match t.quality {
        Some(q) => parts.push("q_"@ + q@),
        None => parts,
    };
    match t.format {
        Some(f) => parts.push("f_"@ + f@),
        None => parts,
    }
}

/// The parts joined with commas.
pub open spec fn join_comma(parts: Seq<Seq<char>>) -> Seq<char>
    decreases parts.len(),
{
    if parts.len() == 0 {
        Seq::empty()
    } else if parts.len() == 1 {
        parts[0]
    } else {
        join_comma(parts.drop_last()) + seq![','] + parts.last()
    }
}

impl ImageTransformations {
    /// The transformation string as it stands in a serving URL:
    /// the present parts, comma separated.
    #[verifier::rlimit(60)]
    pub fn to_transform_string(&self) -> (r: String)
        ensures
            r@ == join_comma(transform_parts(*self)),
    {
        let mut s = String::new();
        let mut any = false;
        let ghost mut parts = Seq::<Seq<char>>::empty();
        proof {
            assert(s@ =~= join_comma(parts));
        }
        match &self.width {
            Some(w) => {
                if any {
                    push_char(&mut s, ',');
                }
                s.append("w_");
                let d = u64_to_string(*w as u64);
                s.append(d.as_str());
                any = true;
                proof {
                    let prev = parts;
                    parts = parts.push("w_"@ + dec_str_of(*w as nat));
                    assert(parts.drop_last() =~= prev);
                    assert(s@ =~= join_comma(parts));
                }
            },
            None => {},
        }
        match &self.height {
            Some(h) => {
                if any {
                    push_char(&mut s, ',');
                }
                s.append("h_");
                let d = u64_to_string(*h as u64);
                s.append(d.as_str());
                any = true;
                proof {
                    let prev = parts;
                    parts = parts.push("h_"@ + dec_str_of(*h as nat));
                    assert(parts.drop_last() =~= prev);
                    assert(s@ =~= join_comma(parts));
                }
            },
            None => {},
        }
        match &self.crop {
            Some(c) => {
                if any {
                    push_char(&mut s, ',');
                }
                s.append("c_");
                s.append(c.as_str());
                any = true;
                proof {
                    let prev = parts;
                    parts = parts.push("c_"@ + c@);
                    assert(parts.drop_last() =~= prev);
                    assert(s@ =~= join_comma(parts));
                }
            },
            None => {},
        }
        match &self.quality {
            Some(q) => {
                if any {
                    push_char(&mut s, ',');
                }
                s.append("q_");
                s.append(q.as_str());
                any = true;
                proof {
                    let prev = parts;
                    parts = parts.push("q_"@ + q@);
                    assert(parts.drop_last() =~= prev);
                    assert(s@ =~= join_comma(parts));
                }
            },
            None => {},
        }
        match &self.format {
            Some(f) => {
                if any {
                    push_char(&mut s, ',');
                }
                s.append("f_");
                s.append(f.as_str());
                any = true;
                proof {
                    let prev = parts;
                    parts = parts.push("f_"@ + f@);
                    assert(parts.drop_last() =~= prev);
                    assert(s@ =~= join_comma(parts));
                }
            },
            None => {},
        }
        proof {
            assert(parts =~= transform_parts(*self));
            assert(s@ =~= join_comma(parts));
        }
        s
    }
}

/// The serving URL of an image: the base for the cloud, then the
/// transformation string if there is one, then the public id.
pub open spec fn transformed_url(cloud: Seq<char>, ts: Seq<char>, public_id: Seq<char>) -> Seq<
    char,
> {
    if ts.len() == 0 {
        "https://res.cloudinary.com/"@ + cloud + "/image/upload/"@ + public_id
    } else {
        "https://res.cloudinary.com/"@ + cloud + "/image/upload/"@ + ts + seq!['/'] + public_id
    }
}

impl CloudinaryConfig {
    /// The serving URL of an image under the given transformations.
    pub fn transform_url(&self, public_id: &str, transformations: &ImageTransformations) -> (r:
        String)
        ensures
            r@ == transformed_url(
                self.cloud_name@,
                join_comma(transform_parts(*transformations)),
                public_id@,
            ),
    {
        let ts = transformations.to_transform_string();
        let mut s = String::from_str("https://res.cloudinary.com/");
        s.append(self.cloud_name.as_str());
        s.append("/image/upload/");
        if !ts.as_str().is_empty() {
            s.append(ts.as_str());
            push_char(&mut s, '/');
        }
        s.append(public_id);
        proof {
            assert(s@ =~= transformed_url(
                self.cloud_name@,
                join_comma(transform_parts(*transformations)),
                public_id@,
            ));
        }
        s
    }

    /// The serving URL of an ad image: 600 by 400, cropped to fill,
    /// automatic quality and format.
    pub fn get_ad_image_url(&self, public_id: &str) -> (r: String)
        ensures
            r@ == transformed_url(self.cloud_name@, join_comma(ad_image_parts()), public_id@),
    {
        let t = ImageTransformations {
            width: Some(600),
            height: Some(400),
            crop: Some("fill".to_owned()),
            quality: Some("auto".to_owned()),
            format: Some("auto".to_owned()),
        };
        proof {
            assert(transform_parts(t) =~= ad_image_parts());
        }
        self.transform_url(public_id, &t)
    }

    /// The serving URL of a sponsor logo: 200 by 200, fitted,
    /// automatic quality and format.
    pub fn get_logo_url(&self, public_id: &str) -> (r: String)
        ensures
            r@ == transformed_url(self.cloud_name@, join_comma(logo_parts()), public_id@),
    {
        let t = ImageTransformations {
            width: Some(200),
            height: Some(200),
            crop: Some("fit".to_owned()),
            quality: Some("auto".to_owned()),
            format: Some("auto".to_owned()),
        };
        proof {
            assert(transform_parts(t) =~= logo_parts());
        }
        self.transform_url(public_id, &t)
    }

    /// Signs a request: the `key=value` pairs joined with ampersands,
    /// the secret appended, hashed with SHA-1 and hex encoded. The
    /// caller passes the parameters already sorted by key, as the
    /// provider expects.
    pub fn generate_signature(&self, params: &Vec<(String, String)>) -> (r: String)
        ensures
            r@ == hex_of(
                sha1_of(encode_utf8(joined_params(params@) + self.api_secret@)),
            ),
    {
        let mut s = String::new();
        let n = params.len();
        let mut i: usize = 0;
        while i < n
            invariant
                i <= n,
                n == params@.len(),
                s@ == joined_params(params@.take(i as int)),
            decreases n - i,
        {
            let ghost taken = params@.take(i as int);
            if i > 0 {
                push_char(&mut s, '&');
            }
            s.append(params[i].0.as_str());
            push_char(&mut s, '=');
            s.append(params[i].1.as_str());
            i += 1;
            proof {
                let taken2 = params@.take(i as int);
                assert(taken2.drop_last() =~= taken);
                assert(taken2.last() == params@[i - 1]);
                assert(s@ =~= joined_params(taken2));
            }
        }
        proof {
            assert(params@.take(n as int) =~= params@);
        }
        s.append(self.api_secret.as_str());
        let digest = sha1(s.as_str().as_bytes());
        hex_encode(digest.as_slice())
    }
}

/// The transformation parts of an ad image: 600 by 400, cropped to
/// fill, automatic quality and format.
pub open spec fn ad_image_parts() -> Seq<Seq<char>> {
    seq![
        "w_"@ + dec_str_of(600nat),
        "h_"@ + dec_str_of(400nat),
        "c_"@ + "fill"@,
        "q_"@ + "auto"@,
        "f_"@ + "auto"@,
    ]
}

/// The transformation parts of a sponsor logo: 200 by 200, fitted,
/// automatic quality and format.
pub open spec fn logo_parts() -> Seq<Seq<char>> {
    seq![
        "w_"@ + dec_str_of(200nat),
        "h_"@ + dec_str_of(200nat),
        "c_"@ + "fit"@,
        "q_"@ + "auto"@,
        "f_"@ + "auto"@,
    ]
}

/// The `key=value` pairs joined with ampersands.
pub open spec fn joined_params(ps: Seq<(String, String)>) -> Seq<char>
    decreases ps.len(),
{
    if ps.len() == 0 {
        Seq::empty()
    } else if ps.len() == 1 {
        ps[0].0@ + seq!['='] + ps[0].1@
    } else {
        joined_params(ps.drop_last()) + seq!['&'] + ps.last().0@ + seq!['='] + ps.last().1@
    }
}

/// The signed parameters a browser needs for a direct upload.
pub struct SignedUploadParams {
    pub cloud_name: String,
    pub api_key: String,
    pub timestamp: i64,
    pub signature: String,
    pub folder: String,
    pub public_id: String,
}

/// The content types accepted for an image upload.
pub open spec fn allowed_image_type(ct: Seq<char>) -> bool {
    ct == "image/jpeg"@ || ct == "image/png"@ || ct == "image/gif"@ || ct == "image/webp"@
}

/// The largest accepted image, in bytes.
pub const MAX_IMAGE_SIZE: usize = 10485760;

/// Checks an upload: one of the accepted image content types, at most
/// ten mebibytes.
pub fn validate_image(content_type: &str, data: &[u8]) -> (r: Result<(), AppError>)
    ensures
        match r {
            Ok(()) => allowed_image_type(content_type@) && data@.len() <= 10485760,
            Err(AppError::BadRequest(_)) => !allowed_image_type(content_type@) || data@.len()
                > 10485760,
            Err(_) => false,
        },
{
    let ok_type = str_eq(content_type, "image/jpeg") || str_eq(content_type, "image/png")
        || str_eq(content_type, "image/gif") || str_eq(content_type, "image/webp");
    if !ok_type {
        let mut m = String::from_str("Invalid image type: ");
        m.append(content_type);
        m.append(". Allowed: [\"image/jpeg\", \"image/png\", \"image/gif\", \"image/webp\"]");
        return Err(AppError::BadRequest(m));
    }
    if data.len() > MAX_IMAGE_SIZE {
        let mut m = String::from_str("Image too large: ");
        let d = u64_to_string(data.len() as u64);
        m.append(d.as_str());
        m.append(" bytes. Max: 10485760 bytes");
        return Err(AppError::BadRequest(m));
    }
    Ok(())
}

/// The character survives filename cleaning: alphanumeric, dash,
/// underscore or dot.
pub open spec fn filename_char(c: char) -> bool {
    unicode_alphanumeric(c) || c == '-' || c == '_' || c == '.'
}

/// The string with its trailing dots removed.
pub open spec fn strip_trailing_dots(s: Seq<char>) -> Seq<char>
    decreases s.len(),
{
    if s.len() > 0 && s.last() == '.' {
        strip_trailing_dots(s.drop_last())
    } else {
        s
    }
}

/// Cleans a filename: keeps only alphanumerics, dashes, underscores
/// and dots, then strips trailing dots.
pub fn sanitize_filename(filename: &str) -> (r: String)
    ensures
        r@ == strip_trailing_dots(filename@.filter(|c: char| filename_char(c))),
{
    let len = filename.unicode_len();
    let mut kept: Vec<char> = Vec::new();
    proof {
        assert(filename@.take(0int) =~= Seq::<char>::empty());
        reveal(Seq::filter);
    }
    let mut i: usize = 0;
    while i < len
        invariant
            i <= len,
            len == filename@.len(),
            kept@ == filename@.take(i as int).filter(|c: char| filename_char(c)),
        decreases len - i,
    {
        let ghost taken = filename@.take(i as int);
        let c = filename.get_char(i);
        if char_is_alphanumeric(c) || c == '-' || c == '_' || c == '.' {
            kept.push(c);
        }
        i += 1;
        proof {
            let taken2 = filename@.take(i as int);
            assert(taken2.drop_last() =~= taken);
            assert(taken2.last() == filename@[i - 1]);
            reveal(Seq::filter);
        }
    }
    proof {
        assert(filename@.take(len as int) =~= filename@);
    }
    let mut end: usize = kept.len();
    proof {
        assert(kept@.take(kept@.len() as int) =~= kept@);
    }
    while end > 0 && kept[end - 1] == '.'
        invariant
            end <= kept@.len(),
            strip_trailing_dots(kept@) == strip_trailing_dots(kept@.take(end as int)),
        decreases end,
    {
        proof {
            let t = kept@.take(end as int);
            assert(t.last() == kept@[end - 1]);
            assert(t.drop_last() =~= kept@.take(end - 1));
        }
        end -= 1;
    }
    proof {
        let t = kept@.take(end as int);
        if end > 0 {
            assert(t.last() == kept@[end - 1]);
        }
        assert(strip_trailing_dots(t) == t);
    }
    let mut s = String::new();
    let mut j: usize = 0;
    while j < end
        invariant
            j <= end,
            end <= kept@.len(),
            s@ == kept@.take(end as int).take(j as int),
        decreases end - j,
    {
        push_char(&mut s, kept[j]);
        j += 1;
        proof {
            assert(s@ =~= kept@.take(end as int).take(j as int));
        }
    }
    proof {
        assert(kept@.take(end as int).take(end as int) =~= kept@.take(end as int));
    }
    s
}

} // verus!
