//! Reading a level file of any version.
//!
//! The leading version number of the payload decides which layout the rest is
//! read as, so an older, shorter payload is never taken for a newer one. What
//! was read is then lifted, version by version, to today's file.

use crate::scene::file::{
    SceneFile, SceneFileModel, SceneFileV1, SceneFileV10, SceneFileV11, SceneFileV12, SceneFileV13,
    SceneFileV14, SceneFileV15, SceneFileV16, SceneFileV17, SceneFileV18, SceneFileV2, SceneFileV3,
    SceneFileV4, SceneFileV5, SceneFileV6, SceneFileV7, SceneFileV8, SceneFileV9, SCHEMA_VERSION,
};
use crate::scene::sky::{SkyAtmosphere, Weather};
use crate::text;
use crate::text::{concat3, decimal};
use vstd::prelude::*;

verus! {

/// A payload, read as the layout of its version.
pub enum ScenePayload {
    V1(SceneFileV1),
    V2(SceneFileV2),
    V3(SceneFileV3),
    V4(SceneFileV4),
    V5(SceneFileV5),
    V6(SceneFileV6),
    V7(SceneFileV7),
    V8(SceneFileV8),
    V9(SceneFileV9),
    V10(SceneFileV10),
    V11(SceneFileV11),
    V12(SceneFileV12),
    V13(SceneFileV13),
    V14(SceneFileV14),
    V15(SceneFileV15),
    V16(SceneFileV16),
    V17(SceneFileV17),
    V18(SceneFileV18),
    Current(SceneFile),
}

impl ScenePayload {
    /// The version whose layout the payload was read as.
    pub open spec fn layout(self) -> u32 {
        match self {
            ScenePayload::V1(_) => 1,
            ScenePayload::V2(_) => 2,
            ScenePayload::V3(_) => 3,
            ScenePayload::V4(_) => 4,
            ScenePayload::V5(_) => 5,
            ScenePayload::V6(_) => 6,
            ScenePayload::V7(_) => 7,
            ScenePayload::V8(_) => 8,
            ScenePayload::V9(_) => 9,
            ScenePayload::V10(_) => 10,
            ScenePayload::V11(_) => 11,
            ScenePayload::V12(_) => 12,
            ScenePayload::V13(_) => 13,
            ScenePayload::V14(_) => 14,
            ScenePayload::V15(_) => 15,
            ScenePayload::V16(_) => 16,
            ScenePayload::V17(_) => 17,
            ScenePayload::V18(_) => 18,
            ScenePayload::Current(_) => SCHEMA_VERSION,
        }
    }

    /// What the payload says.
    pub open spec fn model(self) -> SceneFileModel {
        match self {
            ScenePayload::V1(f) => f@,
            ScenePayload::V2(f) => f@,
            ScenePayload::V3(f) => f@,
            ScenePayload::V4(f) => f@,
            ScenePayload::V5(f) => f@,
            ScenePayload::V6(f) => f@,
            ScenePayload::V7(f) => f@,
            ScenePayload::V8(f) => f@,
            ScenePayload::V9(f) => f@,
            ScenePayload::V10(f) => f@,
            ScenePayload::V11(f) => f@,
            ScenePayload::V12(f) => f@,
            ScenePayload::V13(f) => f@,
            ScenePayload::V14(f) => f@,
            ScenePayload::V15(f) => f@,
            ScenePayload::V16(f) => f@,
            ScenePayload::V17(f) => f@,
            ScenePayload::V18(f) => f@,
            ScenePayload::Current(f) => f@,
        }
    }

    /// What the payload comes to today: the same level, stamped with today's
    /// version, its weather filled in where the version knew none. A payload of
    /// today's layout stays as it is.
    pub open spec fn lifted(self, w: Weather) -> SceneFileModel {
        if self.layout() <= 13 {
            self.model().with_weather(w).stamped(SCHEMA_VERSION)
        } else if self.layout() < SCHEMA_VERSION {
            self.model().stamped(SCHEMA_VERSION)
        } else {
            self.model()
        }
    }

    /// Lift the payload to today's file; `sky` is the living component's
    /// default.
    pub fn into_current(self, sky: &SkyAtmosphere) -> (r: SceneFile)
        ensures
            r@ == self.lifted(sky.weather()),
    {
        match self {
            ScenePayload::V1(f) => f.into_v2().into_v3().into_v4().into_v5().into_v6().into_v7().into_v8().into_v9().into_v10().into_v11().into_v12().into_v13().into_current(sky),
            ScenePayload::V2(f) => f.into_v3().into_v4().into_v5().into_v6().into_v7().into_v8().into_v9().into_v10().into_v11().into_v12().into_v13().into_current(sky),
            ScenePayload::V3(f) => f.into_v4().into_v5().into_v6().into_v7().into_v8().into_v9().into_v10().into_v11().into_v12().into_v13().into_current(sky),
            ScenePayload::V4(f) => f.into_v5().into_v6().into_v7().into_v8().into_v9().into_v10().into_v11().into_v12().into_v13().into_current(sky),
            ScenePayload::V5(f) => f.into_v6().into_v7().into_v8().into_v9().into_v10().into_v11().into_v12().into_v13().into_current(sky),
            ScenePayload::V6(f) => f.into_v7().into_v8().into_v9().into_v10().into_v11().into_v12().into_v13().into_current(sky),
            ScenePayload::V7(f) => f.into_v8().into_v9().into_v10().into_v11().into_v12().into_v13().into_current(sky),
            ScenePayload::V8(f) => f.into_v9().into_v10().into_v11().into_v12().into_v13().into_current(sky),
            ScenePayload::V9(f) => f.into_v10().into_v11().into_v12().into_v13().into_current(sky),
            ScenePayload::V10(f) => f.into_v11().into_v12().into_v13().into_current(sky),
            ScenePayload::V11(f) => f.into_v12().into_v13().into_current(sky),
            ScenePayload::V12(f) => f.into_v13().into_current(sky),
            ScenePayload::V13(f) => f.into_current(sky),
            ScenePayload::V14(f) => f.into_v15().into_v16().into_v17().into_v18().into_current(),
            ScenePayload::V15(f) => f.into_v16().into_v17().into_v18().into_current(),
            ScenePayload::V16(f) => f.into_v17().into_v18().into_current(),
            ScenePayload::V17(f) => f.into_v18().into_current(),
            ScenePayload::V18(f) => f.into_current(),
            ScenePayload::Current(f) => f,
        }
    }
}

// ---------------------------------------------------------------- header

/// The number that leads a payload, in the variable-length form: a byte up to
/// 250 stands for itself, 251 is followed by two bytes and 252 by four, the low
/// byte first; anything else is no number of 32 bits.
pub open spec fn leading_number(bytes: Seq<u8>) -> Option<u32> {
    if bytes.len() == 0 {
        None
    } else if bytes[0] <= 250 {
        Some(bytes[0] as u32)
    } else if bytes[0] == 251 && bytes.len() >= 3 {
        Some((bytes[1] + 256 * bytes[2]) as u32)
    } else if bytes[0] == 252 && bytes.len() >= 5 {
        Some((bytes[1] + 256 * bytes[2] + 65536 * bytes[3] + 16777216 * bytes[4]) as u32)
    } else {
        None
    }
}

/// The text of the error with which `bincode` refuses to read a leading number.
pub uninterp spec fn leading_number_error(bytes: Seq<u8>) -> Seq<char>;

/// `bincode::serde::decode_from_slice` for a `u32` under the standard
/// configuration: that it reads the variable-length form, and that the text of
/// its error depends on the bytes alone.
#[verifier::external_body]
fn bincode_leading_u32(bytes: &[u8]) -> (r: Result<u32, String>)
    ensures
        match leading_number(bytes@) {
            Some(n) => r == Ok::<u32, String>(n),
            None => r is Err && r->Err_0@ == leading_number_error(bytes@),
        },
{
    let read: Result<(u32, usize), bincode::error::DecodeError> =
        bincode::serde::decode_from_slice(bytes, bincode::config::standard());
    match read {
        Ok((n, _)) => Ok(n),
        Err(e) => Err(e.to_string()),
    }
}

/// The message for a version that is not known yet.
pub open spec fn newer_message(version: u32) -> Seq<char> {
    "scene schema v"@ + text::decimal_of(version as nat) + " is newer than this editor (v19)"@
}

fn newer(version: u32) -> (r: String)
    ensures
        r@ == newer_message(version),
{
    let n = decimal(version as u64);
    concat3("scene schema v", n.as_str(), " is newer than this editor (v19)")
}

/// The version whose layout a payload of that version is read as; the first
/// layout also reads the version 0.
pub open spec fn layout_of(version: u32) -> u32 {
    if version == 0 {
        1
    } else {
        version
    }
}

/// Which layout the rest of a payload has to be read as, or why it cannot be
/// read.
pub open spec fn chosen_layout(bytes: Seq<u8>) -> Result<u32, Seq<char>> {
    match leading_number(bytes) {
        None => Err("decode header: "@ + leading_number_error(bytes)),
        Some(v) => if v > SCHEMA_VERSION {
            Err(newer_message(v))
        } else {
            Ok(layout_of(v))
        },
    }
}

/// Choose the layout a payload has to be read as.
pub fn decode_layout(bytes: &[u8]) -> (r: Result<u32, String>)
    ensures
        match chosen_layout(bytes@) {
            Ok(v) => r == Ok::<u32, String>(v),
            Err(text) => r is Err && r->Err_0@ == text,
        },
        r is Ok ==> 1 <= r->Ok_0 <= SCHEMA_VERSION,
{
    match bincode_leading_u32(bytes) {
        Ok(v) => if v > SCHEMA_VERSION {
            Err(newer(v))
        } else if v == 0 {
            Ok(1)
        } else {
            Ok(v)
        },
        Err(e) => {
            let mut s = "decode header: ".to_owned();
            s.append(e.as_str());
            Err(s)
        },
    }
}

/// What precedes the reader's own words where a payload of a layout cannot be
/// read.
pub open spec fn layout_prefix(layout: u32) -> Seq<char> {
    if layout == SCHEMA_VERSION {
        "decode: "@
    } else {
        "decode v"@ + text::decimal_of(layout as nat) + ": "@
    }
}

/// What decoding comes to: the error of the header or of the version, the
/// reader's error under the name of the layout, or the lifted level.
pub open spec fn decoded(
    bytes: Seq<u8>,
    payload: Result<ScenePayload, Seq<char>>,
    w: Weather,
) -> Result<SceneFileModel, Seq<char>> {
    match chosen_layout(bytes) {
        Err(text) => Err(text),
        Ok(layout) => match payload {
            Err(text) => Err(layout_prefix(layout) + text),
            Ok(p) => migrated(p.lifted(w)),
        },
    }
}

/// A level of a version that is not known yet is refused; any other is brought
/// up to today's version.
pub open spec fn migrated(file: SceneFileModel) -> Result<SceneFileModel, Seq<char>> {
    if file.schema_version > SCHEMA_VERSION {
        Err(newer_message(file.schema_version))
    } else {
        Ok(file.stamped(SCHEMA_VERSION))
    }
}

/// Upgrade an older level to today's version. A level of a version that is not
/// known yet is refused. The records have today's shape by then, so that the
/// version is all that is left to bring up.
pub fn migrate(file: SceneFile) -> (r: Result<SceneFile, String>)
    ensures
        file.schema_version <= SCHEMA_VERSION ==> r is Ok && r->Ok_0@ == file@.stamped(
            SCHEMA_VERSION,
        ),
        file.schema_version > SCHEMA_VERSION ==> r is Err && r->Err_0@ == newer_message(
            file.schema_version,
        ),
{
    if file.schema_version > SCHEMA_VERSION {
        return Err(newer(file.schema_version));
    }
    Ok(SceneFile { schema_version: SCHEMA_VERSION, ..file })
}

/// The words of a reader's answer.
pub open spec fn answer(payload: Result<ScenePayload, String>) -> Result<ScenePayload, Seq<char>> {
    match payload {
        Ok(p) => Ok(p),
        Err(e) => Err(e@),
    }
}

/// Decode a payload to today's level. `payload` is what reading the bytes as
/// the chosen layout gave, and `sky` the living component's default.
pub fn decode(bytes: &[u8], payload: Result<ScenePayload, String>, sky: &SkyAtmosphere) -> (r:
    Result<SceneFile, String>)
    requires
        leading_number(bytes@) matches Some(v) ==> (v <= SCHEMA_VERSION ==> (payload matches Ok(p)
            ==> p.layout() == layout_of(v))),
    ensures
        match decoded(bytes@, answer(payload), sky.weather()) {
            Ok(file) => r is Ok && r->Ok_0@ == file,
            Err(text) => r is Err && r->Err_0@ == text,
        },
{
    match decode_layout(bytes) {
        Err(e) => Err(e),
        Ok(layout) => match payload {
            Err(e) => {
                if layout == SCHEMA_VERSION {
                    let mut s = "decode: ".to_owned();
                    s.append(e.as_str());
                    Err(s)
                } else {
                    let n = decimal(layout as u64);
                    let mut s = concat3("decode v", n.as_str(), ": ");
                    s.append(e.as_str());
                    Err(s)
                }
            },
            Ok(p) => migrate(p.into_current(sky)),
        },
    }
}

// ---------------------------------------------------------------- laws

/// A payload that leads with a version not known yet is refused, whatever
/// follows.
pub proof fn law_newer_payloads_are_refused(
    bytes: Seq<u8>,
    payload: Result<ScenePayload, Seq<char>>,
    w: Weather,
    version: u32,
)
    requires
        leading_number(bytes) == Some(version),
        version > SCHEMA_VERSION,
    ensures
        decoded(bytes, payload, w) == Err::<SceneFileModel, Seq<char>>(newer_message(version)),
{
}

/// Every older payload that can be read loads, forever: it comes out stamped
/// with today's version, with its title, its settings and as many entities as
/// it had.
pub proof fn law_older_payloads_load(
    bytes: Seq<u8>,
    payload: ScenePayload,
    w: Weather,
    version: u32,
)
    requires
        leading_number(bytes) == Some(version),
        version < SCHEMA_VERSION,
        payload.layout() == layout_of(version),
    ensures
        decoded(bytes, Ok(payload), w) matches Ok(file) && {
            &&& file.schema_version == SCHEMA_VERSION
            &&& file.title == payload.model().title
            &&& file.settings == payload.model().settings
            &&& file.entities.len() == payload.model().entities.len()
            &&& forall|i: int|
                0 <= i < file.entities.len() ==> (#[trigger] file.entities[i]) == (if layout_of(version)
                    <= 13 {
                    payload.model().entities[i].with_weather(w)
                } else {
                    payload.model().entities[i]
                })
        },
{
}

/// Whatever decodes comes out at today's version.
pub proof fn law_decoded_levels_are_current(
    bytes: Seq<u8>,
    payload: Result<ScenePayload, Seq<char>>,
    w: Weather,
)
    ensures
        decoded(bytes, payload, w) matches Ok(file) ==> file.schema_version == SCHEMA_VERSION,
{
}

/// A payload of today's layout comes out as it was read.
pub proof fn law_current_payloads_load_unchanged(bytes: Seq<u8>, file: SceneFile, w: Weather)
    requires
        leading_number(bytes) == Some(SCHEMA_VERSION),
        file.schema_version == SCHEMA_VERSION,
    ensures
        decoded(bytes, Ok(ScenePayload::Current(file)), w) == Ok::<SceneFileModel, Seq<char>>(file@),
{
}

/// Which layout a payload is read as: that of the version it leads with, the first
/// layout for the version 0 too. A payload that leads with no number, or with a
/// version past today's, is read as none.
pub proof fn law_a_payload_is_read_as_its_version(bytes: Seq<u8>)
    ensures
        match leading_number(bytes) {
            Some(v) => if v == 0 {
                chosen_layout(bytes) == Ok::<u32, Seq<char>>(1)
            } else if v <= 19 {
                chosen_layout(bytes) == Ok::<u32, Seq<char>>(v)
            } else {
                chosen_layout(bytes) is Err
            },
            None => chosen_layout(bytes) is Err,
        },
{
}

/// A payload that was read as its layout opens, whatever version up to today's it is
/// of, and an answer of the reader that it could not read it is no level.
pub proof fn law_what_was_read_opens(
    bytes: Seq<u8>,
    payload: Result<ScenePayload, Seq<char>>,
    w: Weather,
)
    ensures
        leading_number(bytes) matches Some(v) ==> (v <= 19 ==> match payload {
            Ok(p) => p.layout() < 19 ==> decoded(bytes, payload, w) is Ok,
            Err(_) => decoded(bytes, payload, w) is Err,
        }),
        leading_number(bytes) is None ==> decoded(bytes, payload, w) is Err,
{
}

} // verus!
