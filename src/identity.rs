use vstd::prelude::*;
use sha2::Digest;
use crate::activity_controller::ActivityController;
use crate::error::ApiError;
use crate::models::{ActivityTime, BullSharkActivity, ClubActivity};
use crate::text::{
    integer_text, lemma_integer_text, lemma_metres_text, lemma_split_at_separator, metres_text, numeric_chars,
    push_integer, push_metres, push_str, string_from_chars,
};

verus! {

/// The lower-case hex SHA-256 digest of the UTF-8 encoding of `text`.
pub uninterp spec fn sha256_hex_of(text: Seq<char>) -> Seq<char>;

/// Relies on `sha2::Sha256` (`new`, `update`, `finalize`) and the lower-hex
/// formatting of its output: the digest of the text's UTF-8 bytes.
#[verifier::external_body]
fn sha256_hex(text: &String) -> (r: String)
    ensures
        r@ == sha256_hex_of(text@),
{
    let mut hasher = sha2::Sha256::new();
    hasher.update(text.as_bytes());
    format!("{:x}", hasher.finalize())
}

/// The record carries every field that its identity is made of: an athlete
/// with first and last name, a distance, a moving time and an elapsed time.
pub open spec fn has_identity_fields(a: ClubActivity) -> bool {
    &&& a.athlete is Some
    &&& a.athlete->0.first_name is Some
    &&& a.athlete->0.last_name is Some
    &&& a.distance is Some
    &&& a.moving_time is Some
    &&& a.elapsed_time is Some
}

/// The five identity fields joined by `|`, numbers in decimal.
pub open spec fn identity_text(
    first: Seq<char>,
    last: Seq<char>,
    distance_mm: nat,
    moving_time: int,
    elapsed_time: int,
) -> Seq<char> {
    first + seq!['|'] + last + seq!['|'] + metres_text(distance_mm) + seq!['|'] + integer_text(
        moving_time,
    ) + seq!['|'] + integer_text(elapsed_time)
}

/// The identity text of a record that has all identity fields.
pub open spec fn activity_identity_text(a: ClubActivity) -> Seq<char> {
    identity_text(
        a.athlete->0.first_name->0@,
        a.athlete->0.last_name->0@,
        a.distance->0 as nat,
        a.moving_time->0 as int,
        a.elapsed_time->0 as int,
    )
}

/// The identifier of a record that has all identity fields.
pub open spec fn activity_id(a: ClubActivity) -> Seq<char> {
    sha256_hex_of(activity_identity_text(a))
}

/// The display name of the record's athlete, "First Last".
pub open spec fn display_name(a: ClubActivity) -> Seq<char> {
    a.athlete->0.first_name->0@ + seq![' '] + a.athlete->0.last_name->0@
}

/// The internal record made of upstream record `a`, ingested at `time`,
/// apart from its identifier and athlete name.
pub open spec fn carries_fields(b: BullSharkActivity, a: ClubActivity, time: ActivityTime) -> bool {
    &&& b.date == time
    &&& b.resource_state == a.resource_state
    &&& b.name == a.name
    &&& b.distance == a.distance
    &&& b.moving_time == a.moving_time
    &&& b.elapsed_time == a.elapsed_time
    &&& b.total_elevation_gain == a.total_elevation_gain
    &&& b.sport_type == a.sport_type
    &&& b.workout_type == a.workout_type
    &&& b.device_name == a.device_name
}

/// `b` is the conversion of upstream record `a` ingested at `time`.
pub open spec fn converted(b: BullSharkActivity, a: ClubActivity, time: ActivityTime) -> bool {
    &&& b.id@ == activity_id(a)
    &&& b.athlete_name is Some
    &&& b.athlete_name->0@ == display_name(a)
    &&& carries_fields(b, a, time)
}

fn clone_text(o: &Option<String>) -> (r: Option<String>)
    ensures
        r == *o,
{
    match o {
        Some(s) => Some(s.clone()),
        None => None,
    }
}

/// The five identity fields of a record: first name, last name, distance,
/// moving time, elapsed time.
pub open spec fn identity_fields(a: ClubActivity) -> (Seq<char>, Seq<char>, u64, i64, i64) {
    (a.athlete->0.first_name->0@, a.athlete->0.last_name->0@, a.distance->0, a.moving_time->0, a.elapsed_time->0)
}

/// Records with the same five identity fields get the same identifier,
/// whatever their other fields hold.
pub proof fn lemma_same_fields_same_id(a: ClubActivity, b: ClubActivity)
    requires
        has_identity_fields(a),
        has_identity_fields(b),
        identity_fields(a) == identity_fields(b),
    ensures
        activity_id(a) == activity_id(b),
{
}

proof fn lemma_no_separator(s: Seq<char>)
    requires
        numeric_chars(s),
    ensures
        !s.contains('|'),
{
    if s.contains('|') {
        let i = choose|i: int| 0 <= i < s.len() && s[i] == '|';
        assert(numeric_chars(s));
    }
}

/// Records whose names hold no `|` and that differ in one of the five
/// identity fields have different identity texts, so their identifiers
/// differ unless the digest collides.
pub proof fn lemma_different_fields_different_text(a: ClubActivity, b: ClubActivity)
    requires
        has_identity_fields(a),
        has_identity_fields(b),
        !a.athlete->0.first_name->0@.contains('|'),
        !a.athlete->0.last_name->0@.contains('|'),
        !b.athlete->0.first_name->0@.contains('|'),
        !b.athlete->0.last_name->0@.contains('|'),
        identity_fields(a) != identity_fields(b),
    ensures
        activity_identity_text(a) != activity_identity_text(b),
{
    let (fa, la, da, ma, ea) = identity_fields(a);
    let (fb, lb, db, mb, eb) = identity_fields(b);
    let sep = seq!['|'];
    let ta = fa + sep + (la + sep + (metres_text(da as nat) + sep + (integer_text(ma as int) + sep + integer_text(
        ea as int,
    ))));
    let tb = fb + sep + (lb + sep + (metres_text(db as nat) + sep + (integer_text(mb as int) + sep + integer_text(
        eb as int,
    ))));
    assert(activity_identity_text(a) =~= ta);
    assert(activity_identity_text(b) =~= tb);
    if ta == tb {
        lemma_metres_text(da as nat, db as nat);
        lemma_metres_text(db as nat, da as nat);
        lemma_integer_text(ma as int, mb as int);
        lemma_integer_text(mb as int, ma as int);
        lemma_integer_text(ea as int, eb as int);
        lemma_no_separator(metres_text(da as nat));
        lemma_no_separator(metres_text(db as nat));
        lemma_no_separator(integer_text(ma as int));
        lemma_no_separator(integer_text(mb as int));
        lemma_split_at_separator(
            fa,
            la + sep + (metres_text(da as nat) + sep + (integer_text(ma as int) + sep + integer_text(ea as int))),
            fb,
            lb + sep + (metres_text(db as nat) + sep + (integer_text(mb as int) + sep + integer_text(eb as int))),
            '|',
        );
        lemma_split_at_separator(
            la,
            metres_text(da as nat) + sep + (integer_text(ma as int) + sep + integer_text(ea as int)),
            lb,
            metres_text(db as nat) + sep + (integer_text(mb as int) + sep + integer_text(eb as int)),
            '|',
        );
        lemma_split_at_separator(
            metres_text(da as nat),
            integer_text(ma as int) + sep + integer_text(ea as int),
            metres_text(db as nat),
            integer_text(mb as int) + sep + integer_text(eb as int),
            '|',
        );
        lemma_split_at_separator(integer_text(ma as int), integer_text(ea as int), integer_text(mb as int), integer_text(eb as int), '|');
        assert(identity_fields(a) == identity_fields(b));
    }
}

impl ActivityController {
    /// Computes the identifier of an upstream record: the SHA-256 digest, in
    /// lower-case hex, of its identity text.
    pub fn create_hash_for_activity(&self, club_activity: &ClubActivity) -> (r: Result<String, ApiError>)
        ensures
            r is Ok <==> has_identity_fields(*club_activity),
            r matches Ok(h) ==> h@ == activity_id(*club_activity),
            r matches Err(e) ==> e is ConversionError,
    {
        let athlete = match &club_activity.athlete {
            Some(a) => a,
            None => return Err(ApiError::ConversionError("Activity missing athlete".to_string())),
        };
        let first_name = match &athlete.first_name {
            Some(n) => n,
            None => return Err(ApiError::ConversionError("Athlete missing first name".to_string())),
        };
        let last_name = match &athlete.last_name {
            Some(n) => n,
            None => return Err(ApiError::ConversionError("Athlete missing last name".to_string())),
        };
        let distance = match club_activity.distance {
            Some(d) => d,
            None => return Err(ApiError::ConversionError("Activity missing distance".to_string())),
        };
        let moving_time = match club_activity.moving_time {
            Some(t) => t,
            None => return Err(ApiError::ConversionError("Activity missing moving time".to_string())),
        };
        let elapsed_time = match club_activity.elapsed_time {
            Some(t) => t,
            None => return Err(ApiError::ConversionError("Activity missing elapsed time".to_string())),
        };
        let mut composite: Vec<char> = Vec::new();
        push_str(&mut composite, first_name.as_str());
        composite.push('|');
        push_str(&mut composite, last_name.as_str());
        composite.push('|');
        push_metres(&mut composite, distance);
        composite.push('|');
        push_integer(&mut composite, moving_time);
        composite.push('|');
        push_integer(&mut composite, elapsed_time);
        assert(composite@ =~= activity_identity_text(*club_activity));
        let text = string_from_chars(&composite);
        Ok(sha256_hex(&text))
    }

    /// Converts one upstream record into an internal record ingested at `time`.
    pub fn convert_activity_to_bullshark_activity(&self, club_activity: &ClubActivity, time: ActivityTime) -> (r:
        Result<BullSharkActivity, ApiError>)
        ensures
            r is Ok <==> has_identity_fields(*club_activity),
            r matches Ok(b) ==> converted(b, *club_activity, time),
            r matches Err(e) ==> e is ConversionError,
    {
        let hash = self.create_hash_for_activity(club_activity)?;
        let athlete = match &club_activity.athlete {
            Some(a) => a,
            None => return Err(ApiError::ConversionError("Activity missing athlete".to_string())),
        };
        let mut name: Vec<char> = Vec::new();
        match &athlete.first_name {
            Some(n) => push_str(&mut name, n.as_str()),
            None => push_str(&mut name, "Unknown"),
        }
        name.push(' ');
        match &athlete.last_name {
            Some(n) => push_str(&mut name, n.as_str()),
            None => push_str(&mut name, "Unknown"),
        }
        assert(name@ =~= display_name(*club_activity));
        Ok(BullSharkActivity {
            id: hash,
            date: time,
            athlete_name: Some(string_from_chars(&name)),
            resource_state: club_activity.resource_state,
            name: clone_text(&club_activity.name),
            distance: club_activity.distance,
            moving_time: club_activity.moving_time,
            elapsed_time: club_activity.elapsed_time,
            total_elevation_gain: club_activity.total_elevation_gain,
            sport_type: clone_text(&club_activity.sport_type),
            workout_type: club_activity.workout_type,
            device_name: clone_text(&club_activity.device_name),
        })
    }

    /// Converts a whole batch ingested at `batch_time`. One record without its
    /// identity fields fails the whole batch.
    pub fn convert_activities(&self, club_activities: &Vec<ClubActivity>, batch_time: ActivityTime) -> (r:
        Result<Vec<BullSharkActivity>, ApiError>)
        ensures
            r is Ok <==> forall|i: int|
                0 <= i < club_activities@.len() ==> has_identity_fields(#[trigger] club_activities@[i]),
            r matches Ok(v) ==> v@.len() == club_activities@.len() && forall|i: int|
                0 <= i < v@.len() ==> converted(#[trigger] v@[i], club_activities@[i], batch_time),
            r matches Err(e) ==> e is ConversionError,
    {
        let mut out: Vec<BullSharkActivity> = Vec::new();
        let mut i: usize = 0;
        while i < club_activities.len()
            invariant
                i <= club_activities@.len(),
                out@.len() == i,
                forall|j: int| 0 <= j < i ==> has_identity_fields(#[trigger] club_activities@[j]),
                forall|j: int| 0 <= j < i ==> converted(#[trigger] out@[j], club_activities@[j], batch_time),
            decreases club_activities@.len() - i,
        {
            let b = self.convert_activity_to_bullshark_activity(&club_activities[i], batch_time)?;
            out.push(b);
            i = i + 1;
        }
        Ok(out)
    }
}

} // verus!
