//! How the state is laid out in the database: the cells of a row, what
//! they decode to, and the schema's migrations.

use vstd::prelude::*;

use crate::config::{or_else_of, slug_fault};
use crate::digest::{digest_fault, is_digest_hex, lowered, Digest};
use crate::domain::{
    error_class_text, invalid_id_text, is_error_class, mime_model_text, mime_of, AudioMime,
    EpisodeId, EpisodeState, ErrorClass, ShowSlug,
};
use crate::storage::{
    find_show, opt_stored_bytes, EpisodeRecord, EpisodeRow, ShowRecord, ShowRow, Storage,
    StorageError, StorageModel, MAX_STORED_BYTES,
};
use crate::text::{copy_opt, opt_text, same_text};
use crate::timestamp::{timestamp_parsed, Timestamp};

verus! {

/// The first schema: shows and episodes.
pub const SCHEMA_V1: &'static str = "
CREATE TABLE shows (
    slug          TEXT PRIMARY KEY,
    provider      TEXT NOT NULL,
    title         TEXT NOT NULL,
    description   TEXT,
    artwork_path  TEXT,
    last_poll_at  TEXT,
    last_poll_ok  INTEGER,
    last_error    TEXT
) STRICT;

CREATE TABLE episodes (
    show_slug           TEXT NOT NULL REFERENCES shows(slug),
    provider_episode_id TEXT NOT NULL,
    title               TEXT NOT NULL,
    description         TEXT,
    published_at        TEXT,
    duration_secs       INTEGER,
    state               TEXT NOT NULL,
    error_class         TEXT,
    file_path           TEXT,
    bytes               INTEGER,
    blake3              TEXT,
    mime                TEXT,
    discovered_at       TEXT NOT NULL,
    downloaded_at       TEXT,
    PRIMARY KEY (show_slug, provider_episode_id)
) STRICT;

CREATE INDEX episodes_by_show_state ON episodes (show_slug, state);
";

/// The second: in-flight download progress.
pub const SCHEMA_V2: &'static str = "
ALTER TABLE episodes ADD COLUMN bytes_done INTEGER;
ALTER TABLE episodes ADD COLUMN bytes_total INTEGER;
ALTER TABLE episodes ADD COLUMN progress_at TEXT;
";

/// The third: listing validators.
pub const SCHEMA_V3: &'static str = "
ALTER TABLE shows ADD COLUMN episodes_etag TEXT;
";

/// The schema's current version.
pub const SCHEMA_VERSION: i64 = 3;

/// The batches a database at `version` still needs, in order.
pub fn migrate(version: i64) -> (batches: Vec<&'static str>)
    ensures
        version >= 3 ==> batches@.len() == 0,
        version == 2 ==> batches@.len() == 1 && batches@[0]@ == SCHEMA_V3@,
        version == 1 ==> batches@.len() == 2 && batches@[0]@ == SCHEMA_V2@ && batches@[1]@
            == SCHEMA_V3@,
        version <= 0 ==> batches@.len() == 3 && batches@[0]@ == SCHEMA_V1@ && batches@[1]@
            == SCHEMA_V2@ && batches@[2]@ == SCHEMA_V3@,
{
    let mut batches: Vec<&'static str> = Vec::new();
    if version < 1 {
        batches.push(SCHEMA_V1);
    }
    if version < 2 {
        batches.push(SCHEMA_V2);
    }
    if version < 3 {
        batches.push(SCHEMA_V3);
    }
    batches
}

/// The cells of a show row.
#[derive(Debug)]
pub struct ShowCells {
    /// `slug`.
    pub slug: String,
    /// `provider`.
    pub provider: String,
    /// `title`.
    pub title: String,
    /// `description`.
    pub description: Option<String>,
    /// `artwork_path`.
    pub artwork_path: Option<String>,
    /// `last_poll_at`.
    pub last_poll_at: Option<String>,
    /// `last_poll_ok`.
    pub last_poll_ok: Option<bool>,
    /// `last_error`.
    pub last_error: Option<String>,
    /// `episodes_etag`.
    pub episodes_etag: Option<String>,
}

/// The cells of an episode row.
#[derive(Debug)]
pub struct EpisodeCells {
    /// `show_slug`.
    pub show_slug: String,
    /// `provider_episode_id`.
    pub provider_episode_id: String,
    /// `title`.
    pub title: String,
    /// `description`.
    pub description: Option<String>,
    /// `published_at`.
    pub published_at: Option<String>,
    /// `duration_secs`.
    pub duration_secs: Option<u32>,
    /// `state`.
    pub state: String,
    /// `error_class`.
    pub error_class: Option<String>,
    /// `file_path`.
    pub file_path: Option<String>,
    /// `bytes`.
    pub bytes: Option<i64>,
    /// `blake3`.
    pub blake3: Option<String>,
    /// `mime`.
    pub mime: Option<String>,
    /// `discovered_at`.
    pub discovered_at: String,
    /// `downloaded_at`.
    pub downloaded_at: Option<String>,
    /// `bytes_done`.
    pub bytes_done: Option<i64>,
    /// `bytes_total`.
    pub bytes_total: Option<i64>,
    /// `progress_at`.
    pub progress_at: Option<String>,
}

/// What `{:?}` prints for a string: quoted, with escapes.
pub uninterp spec fn debug_quoted(text: Seq<char>) -> Seq<char>;

/// Formats a string with `{:?}`.
#[verifier::external_body]
pub(crate) fn quoted(text: &str) -> (quoted: String)
    ensures
        quoted@ == debug_quoted(text@),
{
    format!("{text:?}")
}

/// What is said of a cell that does not parse.
pub open spec fn cell_fault(column: Seq<char>, raw: Seq<char>, reason: Seq<char>) -> Seq<char> {
    "column `"@ + column + "` value "@ + debug_quoted(raw) + ": "@ + reason
}

fn describe_fault(column: &str, raw: &str, reason: &str) -> (text: String)
    ensures
        text@ == cell_fault(column@, raw@, reason@),
{
    let mut text = "column `".to_owned();
    text.append(column);
    text.append("` value ");
    text.append(quoted(raw).as_str());
    text.append(": ");
    text.append(reason);
    text
}

/// The fault of a slug cell.
pub open spec fn slug_cell_fault(column: Seq<char>, raw: Seq<char>) -> Option<Seq<char>> {
    match slug_fault(raw) {
        Some(reason) => Some(cell_fault(column, raw, reason)),
        None => None,
    }
}

/// The fault of an episode id cell.
pub open spec fn id_cell_fault(column: Seq<char>, raw: Seq<char>) -> Option<Seq<char>> {
    if raw.len() == 0 {
        Some(cell_fault(column, raw, invalid_id_text("episode id"@, "must not be empty"@)))
    } else {
        None
    }
}

/// The fault of an instant cell.
pub open spec fn instant_cell_fault(column: Seq<char>, raw: Seq<char>) -> Option<Seq<char>> {
    match timestamp_parsed(raw) {
        Ok(_) => None,
        Err(reason) => Some(cell_fault(column, raw, reason)),
    }
}

/// The fault of an optional instant cell.
pub open spec fn opt_instant_cell_fault(column: Seq<char>, raw: Option<String>) -> Option<
    Seq<char>,
> {
    match raw {
        Some(raw) => instant_cell_fault(column, raw@),
        None => None,
    }
}

/// The fault of an optional digest cell.
pub open spec fn digest_cell_fault(raw: Option<String>) -> Option<Seq<char>> {
    match raw {
        Some(raw) => if is_digest_hex(raw@) {
            None
        } else {
            Some(cell_fault("blake3"@, raw@, digest_fault(raw@)))
        },
        None => None,
    }
}

/// What an optional instant cell decodes to.
pub open spec fn opt_instant_cell(raw: Option<String>) -> Option<int> {
    match raw {
        Some(raw) => Some(timestamp_parsed(raw@)->Ok_0),
        None => None,
    }
}

/// What a state cell and an error class cell decode to.
pub open spec fn state_decoded(state: Seq<char>, class: Option<String>) -> Result<
    EpisodeState,
    Seq<char>,
> {
    if state == "discovered"@ {
        Ok(EpisodeState::Discovered)
    } else if state == "downloading"@ {
        Ok(EpisodeState::Downloading)
    } else if state == "cached"@ {
        Ok(EpisodeState::Cached)
    } else if state == "pruned"@ {
        Ok(EpisodeState::Pruned)
    } else if state == "failed"@ {
        match class {
            Some(class) => if is_error_class(class@) {
                Ok(
                    EpisodeState::Failed(
                        choose|c: ErrorClass| class@ == #[trigger] error_class_text(c),
                    ),
                )
            } else {
                Err(
                    cell_fault(
                        "error_class"@,
                        class@,
                        invalid_id_text(
                            "error class"@,
                            "not one of network/http-status/parse/disk"@,
                        ),
                    ),
                )
            },
            None => Err("state is `failed` but error_class is NULL"@),
        }
    } else {
        Err("unknown state "@ + debug_quoted(state))
    }
}

/// The fault of the state cells.
pub open spec fn state_cell_fault(state: Seq<char>, class: Option<String>) -> Option<Seq<char>> {
    match state_decoded(state, class) {
        Ok(_) => None,
        Err(reason) => Some(reason),
    }
}

/// A byte count cell; the database never holds negative ones, and one is
/// read as zero.
pub open spec fn bytes_cell(raw: Option<i64>) -> Option<u64> {
    match raw {
        Some(raw) => Some(
            if raw < 0 {
                0u64
            } else {
                raw as u64
            },
        ),
        None => None,
    }
}

/// The first fault of a show row.
pub open spec fn show_fault(cells: ShowCells) -> Option<Seq<char>> {
    or_else_of(
        slug_cell_fault("slug"@, cells.slug@),
        opt_instant_cell_fault("last_poll_at"@, cells.last_poll_at),
    )
}

/// What a show row without fault decodes to.
pub open spec fn show_decoded(cells: ShowCells) -> ShowRow {
    ShowRow {
        slug: cells.slug@,
        provider: cells.provider@,
        title: cells.title@,
        description: opt_text(cells.description),
        artwork_path: opt_text(cells.artwork_path),
        last_poll_at: opt_instant_cell(cells.last_poll_at),
        last_poll_ok: cells.last_poll_ok,
        last_error: opt_text(cells.last_error),
        episodes_etag: opt_text(cells.episodes_etag),
    }
}

/// The first fault of an episode row, in the order its cells are read.
pub open spec fn episode_fault(cells: EpisodeCells) -> Option<Seq<char>> {
    or_else_of(
        slug_cell_fault("show_slug"@, cells.show_slug@),
        or_else_of(
            id_cell_fault("provider_episode_id"@, cells.provider_episode_id@),
            or_else_of(
                opt_instant_cell_fault("published_at"@, cells.published_at),
                or_else_of(
                    state_cell_fault(cells.state@, cells.error_class),
                    or_else_of(
                        digest_cell_fault(cells.blake3),
                        or_else_of(
                            instant_cell_fault("discovered_at"@, cells.discovered_at@),
                            or_else_of(
                                opt_instant_cell_fault("downloaded_at"@, cells.downloaded_at),
                                opt_instant_cell_fault("progress_at"@, cells.progress_at),
                            ),
                        ),
                    ),
                ),
            ),
        ),
    )
}

/// What an episode row without fault decodes to.
pub open spec fn episode_decoded(cells: EpisodeCells) -> EpisodeRow {
    EpisodeRow {
        show: cells.show_slug@,
        id: cells.provider_episode_id@,
        title: cells.title@,
        description: opt_text(cells.description),
        published_at: opt_instant_cell(cells.published_at),
        duration_secs: cells.duration_secs,
        state: state_decoded(cells.state@, cells.error_class)->Ok_0,
        file_path: opt_text(cells.file_path),
        bytes: bytes_cell(cells.bytes),
        blake3: match cells.blake3 {
            Some(raw) => Some(lowered(raw@)),
            None => None,
        },
        mime: match cells.mime {
            Some(raw) => Some(mime_of(raw@)),
            None => None,
        },
        discovered_at: timestamp_parsed(cells.discovered_at@)->Ok_0,
        downloaded_at: opt_instant_cell(cells.downloaded_at),
        bytes_done: bytes_cell(cells.bytes_done),
        bytes_total: bytes_cell(cells.bytes_total),
        progress_at: opt_instant_cell(cells.progress_at),
    }
}

/// Read an instant cell.
fn parse_col(column: &str, raw: &str) -> (at: Result<Timestamp, String>)
    ensures
        match at {
            Ok(at) => instant_cell_fault(column@, raw@) is None && timestamp_parsed(raw@)->Ok_0
                == at@,
            Err(reason) => instant_cell_fault(column@, raw@) == Some(reason@),
        },
{
    match Timestamp::parse(raw) {
        Ok(at) => Ok(at),
        Err(reason) => Err(describe_fault(column, raw, reason.as_str())),
    }
}

/// Read an optional instant cell.
fn parse_opt_col(column: &str, raw: &Option<String>) -> (at: Result<Option<Timestamp>, String>)
    ensures
        match at {
            Ok(at) => opt_instant_cell_fault(column@, *raw) is None
                && crate::timestamp::opt_instant(at) == opt_instant_cell(*raw),
            Err(reason) => opt_instant_cell_fault(column@, *raw) == Some(reason@),
        },
{
    match raw {
        Some(raw) => match parse_col(column, raw.as_str()) {
            Ok(at) => Ok(Some(at)),
            Err(reason) => Err(reason),
        },
        None => Ok(None),
    }
}

/// Read the state cells.
pub fn decode_state(state: &str, class: &Option<String>) -> (decoded: Result<EpisodeState, String>)
    ensures
        match decoded {
            Ok(decoded) => state_decoded(state@, *class) == Ok::<EpisodeState, Seq<char>>(decoded),
            Err(reason) => state_decoded(state@, *class) == Err::<EpisodeState, Seq<char>>(
                reason@,
            ),
        },
{
    if same_text(state, "discovered") {
        Ok(EpisodeState::Discovered)
    } else if same_text(state, "downloading") {
        Ok(EpisodeState::Downloading)
    } else if same_text(state, "cached") {
        Ok(EpisodeState::Cached)
    } else if same_text(state, "pruned") {
        Ok(EpisodeState::Pruned)
    } else if same_text(state, "failed") {
        match class {
            Some(class) => match ErrorClass::parse(class.as_str()) {
                Ok(parsed) => {
                    proof {
                        let chosen = choose|c: ErrorClass|
                            class@ == #[trigger] error_class_text(c);
                        crate::domain::lemma_error_class_text_injective(chosen, parsed);
                    }
                    Ok(EpisodeState::Failed(parsed))
                },
                Err(error) => Err(
                    describe_fault("error_class", class.as_str(), error.to_string().as_str()),
                ),
            },
            None => Err("state is `failed` but error_class is NULL".to_owned()),
        }
    } else {
        let mut reason = "unknown state ".to_owned();
        reason.append(quoted(state).as_str());
        Err(reason)
    }
}

/// Decode a show row.
pub fn decode_show(cells: &ShowCells) -> (record: Result<ShowRecord, StorageError>)
    ensures
        match record {
            Ok(record) => show_fault(*cells) is None && record@ == show_decoded(*cells),
            Err(error) => error matches StorageError::Corrupt { table, reason } && table@
                == "shows"@ && show_fault(*cells) == Some(reason@),
        },
{
    let slug = match ShowSlug::parse(cells.slug.as_str()) {
        Ok(slug) => slug,
        Err(error) => {
            let reason = describe_fault(
                "slug",
                cells.slug.as_str(),
                error.to_string().as_str(),
            );
            return Err(StorageError::Corrupt { table: "shows", reason });
        },
    };
    let last_poll_at = match parse_opt_col("last_poll_at", &cells.last_poll_at) {
        Ok(at) => at,
        Err(reason) => {
            return Err(StorageError::Corrupt { table: "shows", reason });
        },
    };
    Ok(
        ShowRecord {
            slug,
            provider: cells.provider.clone(),
            title: cells.title.clone(),
            description: copy_opt(&cells.description),
            artwork_path: copy_opt(&cells.artwork_path),
            last_poll_at,
            last_poll_ok: cells.last_poll_ok,
            last_error: copy_opt(&cells.last_error),
            episodes_etag: copy_opt(&cells.episodes_etag),
        },
    )
}

/// A byte count cell's value.
fn read_bytes(raw: Option<i64>) -> (bytes: Option<u64>)
    ensures
        bytes == bytes_cell(raw),
{
    match raw {
        Some(raw) => if raw < 0 {
            Some(0)
        } else {
            Some(raw as u64)
        },
        None => None,
    }
}

/// A byte count as a cell.
fn write_bytes(bytes: Option<u64>) -> (raw: Option<i64>)
    ensures
        bytes_cell(raw) == opt_stored_bytes(bytes),
{
    match bytes {
        Some(bytes) => if bytes > MAX_STORED_BYTES {
            Some(0x7fff_ffff_ffff_ffff)
        } else {
            Some(bytes as i64)
        },
        None => None,
    }
}

/// Decode an episode row.
pub fn decode_episode(cells: &EpisodeCells) -> (record: Result<EpisodeRecord, StorageError>)
    ensures
        match record {
            Ok(record) => episode_fault(*cells) is None && record@ == episode_decoded(*cells),
            Err(error) => error matches StorageError::Corrupt { table, reason } && table@
                == "episodes"@ && episode_fault(*cells) == Some(reason@),
        },
{
    let show = match ShowSlug::parse(cells.show_slug.as_str()) {
        Ok(slug) => slug,
        Err(error) => {
            let reason = describe_fault(
                "show_slug",
                cells.show_slug.as_str(),
                error.to_string().as_str(),
            );
            return Err(StorageError::Corrupt { table: "episodes", reason });
        },
    };
    let id = match EpisodeId::parse(cells.provider_episode_id.as_str()) {
        Ok(id) => id,
        Err(error) => {
            let reason = describe_fault(
                "provider_episode_id",
                cells.provider_episode_id.as_str(),
                error.to_string().as_str(),
            );
            return Err(StorageError::Corrupt { table: "episodes", reason });
        },
    };
    let published_at = match parse_opt_col("published_at", &cells.published_at) {
        Ok(at) => at,
        Err(reason) => {
            return Err(StorageError::Corrupt { table: "episodes", reason });
        },
    };
    let state = match decode_state(cells.state.as_str(), &cells.error_class) {
        Ok(state) => state,
        Err(reason) => {
            return Err(StorageError::Corrupt { table: "episodes", reason });
        },
    };
    let blake3 = match &cells.blake3 {
        Some(raw) => match Digest::from_hex(raw.as_str()) {
            Ok(digest) => Some(digest),
            Err(error) => {
                let reason = describe_fault("blake3", raw.as_str(), error.as_str());
                return Err(StorageError::Corrupt { table: "episodes", reason });
            },
        },
        None => None,
    };
    let mime = match &cells.mime {
        Some(raw) => Some(AudioMime::from(raw.as_str())),
        None => None,
    };
    let discovered_at = match parse_col("discovered_at", cells.discovered_at.as_str()) {
        Ok(at) => at,
        Err(reason) => {
            return Err(StorageError::Corrupt { table: "episodes", reason });
        },
    };
    let downloaded_at = match parse_opt_col("downloaded_at", &cells.downloaded_at) {
        Ok(at) => at,
        Err(reason) => {
            return Err(StorageError::Corrupt { table: "episodes", reason });
        },
    };
    let progress_at = match parse_opt_col("progress_at", &cells.progress_at) {
        Ok(at) => at,
        Err(reason) => {
            return Err(StorageError::Corrupt { table: "episodes", reason });
        },
    };
    Ok(
        EpisodeRecord {
            show,
            id,
            title: cells.title.clone(),
            description: copy_opt(&cells.description),
            published_at,
            duration_secs: cells.duration_secs,
            state,
            file_path: copy_opt(&cells.file_path),
            bytes: read_bytes(cells.bytes),
            blake3,
            mime,
            discovered_at,
            downloaded_at,
            bytes_done: read_bytes(cells.bytes_done),
            bytes_total: read_bytes(cells.bytes_total),
            progress_at,
        },
    )
}

/// The text of an optional instant.
fn write_instant(at: &Option<Timestamp>) -> (raw: Option<String>)
    ensures
        opt_instant_cell(raw) == crate::timestamp::opt_instant(*at),
        raw matches Some(raw) ==> timestamp_parsed(raw@) is Ok,
{
    match at {
        Some(at) => Some(at.to_string()),
        None => None,
    }
}

/// The cells of a show; they decode to the record they were made from.
pub fn encode_show(record: &ShowRecord) -> (cells: ShowCells)
    ensures
        show_fault(cells) is None,
        show_decoded(cells) == record@,
{
    ShowCells {
        slug: record.slug.to_string(),
        provider: record.provider.clone(),
        title: record.title.clone(),
        description: copy_opt(&record.description),
        artwork_path: copy_opt(&record.artwork_path),
        last_poll_at: write_instant(&record.last_poll_at),
        last_poll_ok: record.last_poll_ok,
        last_error: copy_opt(&record.last_error),
        episodes_etag: copy_opt(&record.episodes_etag),
    }
}

/// A row as the database gives it back: byte counts capped, and a MIME type
/// as its text is read again.
pub open spec fn stored_row(row: EpisodeRow) -> EpisodeRow {
    EpisodeRow {
        bytes: opt_stored_bytes(row.bytes),
        bytes_done: opt_stored_bytes(row.bytes_done),
        bytes_total: opt_stored_bytes(row.bytes_total),
        mime: match row.mime {
            Some(mime) => Some(mime_of(mime_model_text(mime))),
            None => None,
        },
        ..row
    }
}

/// The state cells of a lifecycle state, which decode to it.
fn encode_state(state: EpisodeState) -> (cells: (String, Option<String>))
    ensures
        state_decoded(cells.0@, cells.1) == Ok::<EpisodeState, Seq<char>>(state),
{
    proof {
        reveal_strlit("discovered");
        reveal_strlit("downloading");
        reveal_strlit("cached");
        reveal_strlit("pruned");
        reveal_strlit("failed");
        assert("discovered"@.len() == 10 && "downloading"@.len() == 11);
        assert("cached"@.len() == 6 && "pruned"@.len() == 6 && "failed"@.len() == 6);
        assert("cached"@[0] == 'c' && "pruned"@[0] == 'p' && "failed"@[0] == 'f');
    }
    match state {
        EpisodeState::Discovered => ("discovered".to_owned(), None),
        EpisodeState::Downloading => ("downloading".to_owned(), None),
        EpisodeState::Cached => ("cached".to_owned(), None),
        EpisodeState::Pruned => ("pruned".to_owned(), None),
        EpisodeState::Failed(class) => {
            let label = class.to_string();
            proof {
                assert(is_error_class(label@));
                let chosen = choose|c: ErrorClass| label@ == #[trigger] error_class_text(c);
                crate::domain::lemma_error_class_text_injective(chosen, class);
            }
            ("failed".to_owned(), Some(label))
        },
    }
}

/// The cells of an episode; they decode to the record they were made from,
/// as [`stored_row`] has it.
pub fn encode_episode(record: &EpisodeRecord) -> (cells: EpisodeCells)
    ensures
        episode_fault(cells) is None,
        episode_decoded(cells) == stored_row(record@),
{
    let (state, error_class) = encode_state(record.state);
    let blake3 = match &record.blake3 {
        Some(digest) => Some(digest.to_hex()),
        None => None,
    };
    let mime = match &record.mime {
        Some(mime) => Some(mime.to_string()),
        None => None,
    };
    EpisodeCells {
        show_slug: record.show.to_string(),
        provider_episode_id: record.id.to_string(),
        title: record.title.clone(),
        description: copy_opt(&record.description),
        published_at: write_instant(&record.published_at),
        duration_secs: record.duration_secs,
        state,
        error_class,
        file_path: copy_opt(&record.file_path),
        bytes: write_bytes(record.bytes),
        blake3,
        mime,
        discovered_at: record.discovered_at.to_string(),
        downloaded_at: write_instant(&record.downloaded_at),
        bytes_done: write_bytes(record.bytes_done),
        bytes_total: write_bytes(record.bytes_total),
        progress_at: write_instant(&record.progress_at),
    }
}

/// What storage holds fits the database: writing a row and reading it back
/// gives the row, when its byte counts were stored and its MIME type was
/// read from a text.
pub proof fn law_rows_round_trip(row: EpisodeRow)
    requires
        row.bytes matches Some(b) ==> b <= MAX_STORED_BYTES,
        row.bytes_done matches Some(b) ==> b <= MAX_STORED_BYTES,
        row.bytes_total matches Some(b) ==> b <= MAX_STORED_BYTES,
        row.mime matches Some(mime) ==> exists|raw: Seq<char>| mime == #[trigger] mime_of(raw),
    ensures
        stored_row(row) == row,
{
    if row.mime is Some {
        let raw = choose|raw: Seq<char>| row.mime->0 == #[trigger] mime_of(raw);
        reveal_strlit("audio/mpeg");
        reveal_strlit("audio/mp3");
        reveal_strlit("audio/mp4");
        reveal_strlit("audio/x-m4a");
        reveal_strlit("audio/aac");
        reveal_strlit("audio/ogg");
        assert("audio/mp3"@[8] == '3' && "audio/mp4"@[8] == '4');
        assert("audio/mp3"@[6] == 'm' && "audio/mp4"@[6] == 'm');
        assert("audio/aac"@[6] == 'a' && "audio/ogg"@[6] == 'o');
        assert("audio/mpeg"@.len() == 10 && "audio/x-m4a"@.len() == 11);
        assert("audio/mp3"@.len() == 9 && "audio/mp4"@.len() == 9);
        assert("audio/aac"@.len() == 9 && "audio/ogg"@.len() == 9);
    }
}

/// The model of a whole database.
pub open spec fn database_decoded(
    shows: Seq<ShowCells>,
    episodes: Seq<EpisodeCells>,
) -> StorageModel {
    StorageModel {
        shows: shows.map_values(|c: ShowCells| show_decoded(c)),
        episodes: episodes.map_values(|c: EpisodeCells| episode_decoded(c)),
    }
}

/// Whether every row of a database decodes.
pub open spec fn database_decodes(shows: Seq<ShowCells>, episodes: Seq<EpisodeCells>) -> bool {
    &&& forall|i: int| 0 <= i < shows.len() ==> show_fault(#[trigger] shows[i]) is None
    &&& forall|i: int| 0 <= i < episodes.len() ==> episode_fault(#[trigger] episodes[i]) is None
}

/// Whether the first faulty row among these shows is the one at `i`.
pub open spec fn first_faulty_show(shows: Seq<ShowCells>, i: int) -> bool {
    &&& 0 <= i < shows.len()
    &&& show_fault(shows[i]) is Some
    &&& forall|j: int| 0 <= j < i ==> show_fault(#[trigger] shows[j]) is None
}

/// Whether the first faulty row among these episodes is the one at `i`.
pub open spec fn first_faulty_episode(episodes: Seq<EpisodeCells>, i: int) -> bool {
    &&& 0 <= i < episodes.len()
    &&& episode_fault(episodes[i]) is Some
    &&& forall|j: int| 0 <= j < i ==> episode_fault(#[trigger] episodes[j]) is None
}

/// Whether a table and a reason are the first fault of a database: that of
/// the first show that does not decode, else that of the first episode that
/// does not, else that keys clash or shows are missing.
pub open spec fn database_fault(
    shows: Seq<ShowCells>,
    episodes: Seq<EpisodeCells>,
    table: Seq<char>,
    reason: Seq<char>,
) -> bool {
    ||| exists|i: int|
        #[trigger] first_faulty_show(shows, i) && table == "shows"@ && show_fault(shows[i])
            == Some(reason)
    ||| {
        &&& forall|j: int| 0 <= j < shows.len() ==> show_fault(#[trigger] shows[j]) is None
        &&& exists|i: int|
            #[trigger] first_faulty_episode(episodes, i) && table == "episodes"@ && episode_fault(
                episodes[i],
            ) == Some(reason)
    }
    ||| {
        &&& database_decodes(shows, episodes)
        &&& !database_decoded(shows, episodes).wf()
        &&& table == "episodes"@
        &&& reason == "duplicate key or missing show"@
    }
}

impl Storage {
    /// Whether the state is well formed.
    pub fn is_wf(&self) -> (ok: bool)
        ensures
            ok == self@.wf(),
    {
        let mut i: usize = 0;
        while i < self.shows.len()
            invariant
                i <= self.shows@.len(),
                forall|a: int, b: int|
                    #![trigger self@.shows[a], self@.shows[b]]
                    0 <= a < b < i ==> self@.shows[a].slug != self@.shows[b].slug,
            decreases self.shows@.len() - i,
        {
            let mut j: usize = 0;
            while j < i
                invariant
                    j <= i < self.shows@.len(),
                    forall|a: int, b: int|
                        #![trigger self@.shows[a], self@.shows[b]]
                        0 <= a < b < i ==> self@.shows[a].slug != self@.shows[b].slug,
                    forall|a: int|
                        0 <= a < j ==> (#[trigger] self@.shows[a]).slug
                            != self@.shows[i as int].slug,
                decreases i - j,
            {
                if self.shows[j].slug.same(&self.shows[i].slug) {
                    assert(self@.shows[j as int].slug == self@.shows[i as int].slug);
                    return false;
                }
                j += 1;
            }
            i += 1;
        }
        let mut i: usize = 0;
        while i < self.episodes.len()
            invariant
                i <= self.episodes@.len(),
                forall|a: int, b: int|
                    #![trigger self@.shows[a], self@.shows[b]]
                    0 <= a < b < self@.shows.len() ==> self@.shows[a].slug
                        != self@.shows[b].slug,
                forall|a: int, b: int|
                    #![trigger self@.episodes[a], self@.episodes[b]]
                    0 <= a < b < i ==> self@.episodes[a].show != self@.episodes[b].show
                        || self@.episodes[a].id != self@.episodes[b].id,
                forall|a: int|
                    0 <= a < i ==> find_show(self@.shows, (#[trigger] self@.episodes[a]).show) is Some,
            decreases self.episodes@.len() - i,
        {
            let mut j: usize = 0;
            while j < i
                invariant
                    j <= i < self.episodes@.len(),
                    forall|a: int, b: int|
                        #![trigger self@.episodes[a], self@.episodes[b]]
                        0 <= a < b < i ==> self@.episodes[a].show != self@.episodes[b].show
                            || self@.episodes[a].id != self@.episodes[b].id,
                    forall|a: int|
                        0 <= a < j ==> (#[trigger] self@.episodes[a]).show
                            != self@.episodes[i as int].show || self@.episodes[a].id
                            != self@.episodes[i as int].id,
                    forall|a: int|
                        0 <= a < i ==> find_show(
                            self@.shows,
                            (#[trigger] self@.episodes[a]).show,
                        ) is Some,
                decreases i - j,
            {
                if self.episodes[j].show.same(&self.episodes[i].show) && self.episodes[j].id.same(
                    &self.episodes[i].id,
                ) {
                    assert(self@.episodes[j as int].show == self@.episodes[i as int].show);
                    assert(self@.episodes[j as int].id == self@.episodes[i as int].id);
                    return false;
                }
                j += 1;
            }
            if self.show(&self.episodes[i].show).is_none() {
                assert(find_show(self@.shows, self@.episodes[i as int].show) is None);
                return false;
            }
            i += 1;
        }
        true
    }

    /// The state that rows hold. Rows that do not decode, share a key, or
    /// belong to no show make it corrupt, with the first fault as the reason.
    /// Who asks about one show hands in its rows alone, so that a fault
    /// elsewhere does not stand in the way.
    pub fn from_rows(shows: &Vec<ShowCells>, episodes: &Vec<EpisodeCells>) -> (storage: Result<
        Storage,
        StorageError,
    >)
        ensures
            match storage {
                Ok(storage) => {
                    &&& database_decodes(shows@, episodes@)
                    &&& storage@ == database_decoded(shows@, episodes@)
                    &&& storage@.wf()
                },
                Err(error) => error matches StorageError::Corrupt { table, reason }
                    && database_fault(shows@, episodes@, table@, reason@),
            },
    {
        let mut storage = Storage::new();
        let ghost whole = database_decoded(shows@, episodes@);
        let mut i: usize = 0;
        while i < shows.len()
            invariant
                i <= shows@.len(),
                whole == database_decoded(shows@, episodes@),
                storage.episodes@.len() == 0,
                storage.shows@.len() == i,
                forall|k: int| 0 <= k < i ==> show_fault(#[trigger] shows@[k]) is None,
                forall|k: int|
                    0 <= k < i ==> (#[trigger] storage.shows@[k])@ == show_decoded(shows@[k]),
            decreases shows@.len() - i,
        {
            match decode_show(&shows[i]) {
                Ok(record) => {
                    storage.shows.push(record);
                },
                Err(error) => {
                    assert(first_faulty_show(shows@, i as int));
                    return Err(error);
                },
            }
            i += 1;
        }
        let mut i: usize = 0;
        while i < episodes.len()
            invariant
                i <= episodes@.len(),
                whole == database_decoded(shows@, episodes@),
                storage.shows@.len() == shows@.len(),
                storage.episodes@.len() == i,
                forall|k: int| 0 <= k < shows@.len() ==> show_fault(#[trigger] shows@[k]) is None,
                forall|k: int|
                    0 <= k < shows@.len() ==> (#[trigger] storage.shows@[k])@ == show_decoded(
                        shows@[k],
                    ),
                forall|k: int| 0 <= k < i ==> episode_fault(#[trigger] episodes@[k]) is None,
                forall|k: int|
                    0 <= k < i ==> (#[trigger] storage.episodes@[k])@ == episode_decoded(
                        episodes@[k],
                    ),
            decreases episodes@.len() - i,
        {
            match decode_episode(&episodes[i]) {
                Ok(record) => {
                    storage.episodes.push(record);
                },
                Err(error) => {
                    assert(first_faulty_episode(episodes@, i as int));
                    return Err(error);
                },
            }
            i += 1;
        }
        assert(storage@.shows =~= whole.shows);
        assert(storage@.episodes =~= whole.episodes);
        if storage.is_wf() {
            Ok(storage)
        } else {
            Err(
                StorageError::Corrupt {
                    table: "episodes",
                    reason: "duplicate key or missing show".to_owned(),
                },
            )
        }
    }
}

/// A show's cells decode to a row that says what they say, column by column.
pub proof fn law_show_columns(cells: ShowCells)
    ensures
        show_decoded(cells).slug == cells.slug@,
        show_decoded(cells).provider == cells.provider@,
        show_decoded(cells).title == cells.title@,
        show_decoded(cells).description == opt_text(cells.description),
        show_decoded(cells).artwork_path == opt_text(cells.artwork_path),
        show_decoded(cells).last_poll_ok == cells.last_poll_ok,
        show_decoded(cells).last_error == opt_text(cells.last_error),
        show_decoded(cells).episodes_etag == opt_text(cells.episodes_etag),
        cells.last_poll_at is None ==> show_decoded(cells).last_poll_at is None,
        cells.last_poll_at matches Some(raw) ==> (timestamp_parsed(raw@) matches Ok(at)
            ==> show_decoded(cells).last_poll_at == Some(at)),
{
}

/// An episode's cells decode to a row that says what they say, column by
/// column.
pub proof fn law_episode_columns(cells: EpisodeCells)
    ensures
        ({
            let row = episode_decoded(cells);
            &&& row.show == cells.show_slug@
            &&& row.id == cells.provider_episode_id@
            &&& row.title == cells.title@
            &&& row.description == opt_text(cells.description)
            &&& row.duration_secs == cells.duration_secs
            &&& row.file_path == opt_text(cells.file_path)
            &&& cells.published_at is None ==> row.published_at is None
            &&& cells.published_at matches Some(raw) ==> (timestamp_parsed(raw@) matches Ok(at)
                ==> row.published_at == Some(at))
            &&& timestamp_parsed(cells.discovered_at@) matches Ok(at) ==> row.discovered_at == at
            &&& cells.downloaded_at is None ==> row.downloaded_at is None
            &&& cells.downloaded_at matches Some(raw) ==> (timestamp_parsed(raw@) matches Ok(at)
                ==> row.downloaded_at == Some(at))
            &&& cells.progress_at is None ==> row.progress_at is None
            &&& cells.progress_at matches Some(raw) ==> (timestamp_parsed(raw@) matches Ok(at)
                ==> row.progress_at == Some(at))
            &&& cells.bytes is None ==> row.bytes is None
            &&& cells.bytes matches Some(n) ==> (n >= 0 ==> row.bytes == Some(n as u64))
            &&& cells.bytes_done is None ==> row.bytes_done is None
            &&& cells.bytes_done matches Some(n) ==> (n >= 0 ==> row.bytes_done == Some(n as u64))
            &&& cells.bytes_total is None ==> row.bytes_total is None
            &&& cells.bytes_total matches Some(n) ==> (n >= 0 ==> row.bytes_total == Some(
                n as u64,
            ))
            &&& cells.blake3 is None ==> row.blake3 is None
            &&& cells.blake3 matches Some(raw) ==> row.blake3 == Some(lowered(raw@))
            &&& cells.mime is None ==> row.mime is None
            &&& cells.mime matches Some(raw) ==> row.mime == Some(mime_of(raw@))
        }),
{
}

/// The states are known by their names, a failure by its class beside it,
/// and no other name is a state.
pub proof fn law_state_names(state: Seq<char>, class: Option<String>, kind: ErrorClass)
    ensures
        state_decoded("discovered"@, class) == Ok::<EpisodeState, Seq<char>>(
            EpisodeState::Discovered,
        ),
        state_decoded("downloading"@, class) == Ok::<EpisodeState, Seq<char>>(
            EpisodeState::Downloading,
        ),
        state_decoded("cached"@, class) == Ok::<EpisodeState, Seq<char>>(EpisodeState::Cached),
        state_decoded("pruned"@, class) == Ok::<EpisodeState, Seq<char>>(EpisodeState::Pruned),
        class matches Some(text) ==> (text@ == error_class_text(kind) ==> state_decoded(
            "failed"@,
            class,
        ) == Ok::<EpisodeState, Seq<char>>(EpisodeState::Failed(kind))),
        class is None ==> state_decoded("failed"@, class) is Err,
        state != "discovered"@ && state != "downloading"@ && state != "cached"@ && state
            != "pruned"@ && state != "failed"@ ==> state_decoded(state, class) is Err,
{
    reveal_strlit("discovered");
    reveal_strlit("downloading");
    reveal_strlit("cached");
    reveal_strlit("pruned");
    reveal_strlit("failed");
    assert("discovered"@.len() == 10 && "downloading"@.len() == 11 && "cached"@.len() == 6);
    assert("pruned"@.len() == 6 && "failed"@.len() == 6);
    assert("cached"@[0] == 'c' && "pruned"@[0] == 'p' && "failed"@[0] == 'f');
    match class {
        Some(text) => {
            if text@ == error_class_text(kind) {
                assert(is_error_class(text@));
                let chosen = choose|c: ErrorClass| text@ == #[trigger] error_class_text(c);
                crate::domain::lemma_error_class_text_injective(chosen, kind);
            }
        },
        None => {},
    }
}

/// Cells decode exactly if each of them is of its kind: slugs, ids, times, a
/// state and a digest.
pub proof fn law_which_cells_decode(cells: EpisodeCells, show: ShowCells)
    ensures
        episode_fault(cells) is None <==> {
            &&& crate::domain::is_slug(cells.show_slug@)
            &&& cells.provider_episode_id@.len() > 0
            &&& cells.published_at matches Some(raw) ==> timestamp_parsed(raw@) is Ok
            &&& state_decoded(cells.state@, cells.error_class) is Ok
            &&& cells.blake3 matches Some(raw) ==> is_digest_hex(raw@)
            &&& timestamp_parsed(cells.discovered_at@) is Ok
            &&& cells.downloaded_at matches Some(raw) ==> timestamp_parsed(raw@) is Ok
            &&& cells.progress_at matches Some(raw) ==> timestamp_parsed(raw@) is Ok
        },
        show_fault(show) is None <==> {
            &&& crate::domain::is_slug(show.slug@)
            &&& show.last_poll_at matches Some(raw) ==> timestamp_parsed(raw@) is Ok
        },
{
}

/// Writing a row keeps all of it; only a byte count beyond what the database
/// holds is capped.
pub proof fn law_writing_keeps_the_row(row: EpisodeRow)
    ensures
        ({
            let stored = stored_row(row);
            &&& crate::storage::same_listing(stored, row)
            &&& stored.duration_secs == row.duration_secs
            &&& stored.state == row.state
            &&& stored.file_path == row.file_path
            &&& stored.blake3 == row.blake3
            &&& stored.downloaded_at == row.downloaded_at
            &&& stored.progress_at == row.progress_at
            &&& row.bytes matches Some(n) ==> (n <= 0x7fff_ffff_ffff_ffff ==> stored.bytes
                == row.bytes)
            &&& row.bytes is None ==> stored.bytes is None
            &&& row.bytes_done matches Some(n) ==> (n <= 0x7fff_ffff_ffff_ffff ==> stored.bytes_done
                == row.bytes_done)
            &&& row.bytes_total matches Some(n) ==> (n <= 0x7fff_ffff_ffff_ffff
                ==> stored.bytes_total == row.bytes_total)
        }),
{
}

/// A database decodes row by row, in its order.
pub proof fn law_databases_decode_in_order(
    shows: Seq<ShowCells>,
    episodes: Seq<EpisodeCells>,
)
    ensures
        database_decoded(shows, episodes).shows.len() == shows.len(),
        database_decoded(shows, episodes).episodes.len() == episodes.len(),
        forall|i: int|
            0 <= i < shows.len() ==> #[trigger] database_decoded(shows, episodes).shows[i]
                == show_decoded(shows[i]),
        forall|i: int|
            0 <= i < episodes.len() ==> #[trigger] database_decoded(shows, episodes).episodes[i]
                == episode_decoded(episodes[i]),
{
}

/// What is said of a cell that cannot be read: its column, what it holds
/// and why that is no value.
pub proof fn law_faulty_cells_say_why(column: Seq<char>, raw: Seq<char>, reason: Seq<char>)
    ensures
        cell_fault(column, raw, reason) == "column `"@ + column + "` value "@ + debug_quoted(raw)
            + ": "@ + reason,
        id_cell_fault(column, raw) is Some <==> raw.len() == 0,
        raw.len() == 0 ==> id_cell_fault(column, raw) == Some(
            cell_fault(column, raw, "invalid "@ + "episode id"@ + ": "@ + "must not be empty"@),
        ),
        slug_cell_fault(column, raw) is None <==> crate::domain::is_slug(raw),
        slug_cell_fault(column, raw) matches Some(fault) ==> Some(fault) == Some(
            cell_fault(column, raw, slug_fault(raw)->0),
        ),
        instant_cell_fault(column, raw) is None <==> timestamp_parsed(raw) is Ok,
        timestamp_parsed(raw) == Err::<int, Seq<char>>(reason) ==> instant_cell_fault(column, raw)
            == Some(cell_fault(column, raw, reason)),
{
}

/// A digest's cell is read where it holds none or a digest in hexadecimal,
/// and is named where it holds anything else.
pub proof fn law_digest_cells(raw: String)
    ensures
        digest_cell_fault(None) is None,
        digest_cell_fault(Some(raw)) is None <==> is_digest_hex(raw@),
        !is_digest_hex(raw@) ==> digest_cell_fault(Some(raw)) == Some(
            cell_fault("blake3"@, raw@, digest_fault(raw@)),
        ),
{
}

/// A size that was stored is read as it is; one below zero counts as zero.
pub proof fn law_size_cells(raw: i64)
    ensures
        bytes_cell(None) == None::<u64>,
        raw >= 0 ==> bytes_cell(Some(raw)) == Some(raw as u64),
        raw < 0 ==> bytes_cell(Some(raw)) == Some(0u64),
{
}

/// A row that does not decode is refused for the first of its cells that
/// cannot be read, under the name of that cell's column.
pub proof fn law_the_first_faulty_cell_counts(cells: EpisodeCells)
    ensures
        ({
            let show = slug_cell_fault("show_slug"@, cells.show_slug@);
            let id = id_cell_fault("provider_episode_id"@, cells.provider_episode_id@);
            let published = match cells.published_at {
                Some(raw) => instant_cell_fault("published_at"@, raw@),
                None => None,
            };
            let state = state_decoded(cells.state@, cells.error_class);
            let digest = digest_cell_fault(cells.blake3);
            let found = instant_cell_fault("discovered_at"@, cells.discovered_at@);
            let done = match cells.downloaded_at {
                Some(raw) => instant_cell_fault("downloaded_at"@, raw@),
                None => None,
            };
            let moved = match cells.progress_at {
                Some(raw) => instant_cell_fault("progress_at"@, raw@),
                None => None,
            };
            let front = show is None && id is None && published is None;
            &&& show is Some ==> episode_fault(cells) == show
            &&& show is None && id is Some ==> episode_fault(cells) == id
            &&& show is None && id is None && published is Some ==> episode_fault(cells)
                == published
            &&& front ==> (state matches Err(reason) ==> episode_fault(cells) == Some(reason))
            &&& front && state is Ok && digest is Some ==> episode_fault(cells) == digest
            &&& front && state is Ok && digest is None && found is Some ==> episode_fault(cells)
                == found
            &&& front && state is Ok && digest is None && found is None && done is Some
                ==> episode_fault(cells) == done
            &&& front && state is Ok && digest is None && found is None && done is None
                ==> episode_fault(cells) == moved
        }),
{
}

/// A show's row is refused for its slug before the time of its last poll.
pub proof fn law_the_first_faulty_show_cell_counts(cells: ShowCells)
    ensures
        !crate::domain::is_slug(cells.slug@) ==> show_fault(cells) == slug_cell_fault(
            "slug"@,
            cells.slug@,
        ),
        crate::domain::is_slug(cells.slug@) ==> show_fault(cells) == match cells.last_poll_at {
            Some(raw) => instant_cell_fault("last_poll_at"@, raw@),
            None => None,
        },
{
}

/// A database is refused for a row of the table that is named: a show that
/// does not decode, with no faulty show before it, or else an episode that
/// does not, with no faulty episode before it; or else for its keys.
pub proof fn law_the_first_faulty_row_counts(
    shows: Seq<ShowCells>,
    episodes: Seq<EpisodeCells>,
    table: Seq<char>,
    reason: Seq<char>,
    i: int,
)
    requires
        database_fault(shows, episodes, table, reason),
    ensures
        0 <= i < shows.len() && show_fault(shows[i]) is Some && (forall|j: int|
            0 <= j < i ==> show_fault(#[trigger] shows[j]) is None) ==> table == "shows"@ && Some(
            reason,
        ) == show_fault(shows[i]),
        (forall|j: int| 0 <= j < shows.len() ==> show_fault(#[trigger] shows[j]) is None) && 0 <= i
            < episodes.len() && episode_fault(episodes[i]) is Some && (forall|j: int|
            0 <= j < i ==> episode_fault(#[trigger] episodes[j]) is None) ==> table == "episodes"@
            && Some(reason) == episode_fault(episodes[i]),
        (forall|j: int| 0 <= j < shows.len() ==> show_fault(#[trigger] shows[j]) is None) && (forall|
            j: int,
        |
            0 <= j < episodes.len() ==> episode_fault(#[trigger] episodes[j]) is None) ==> table
            == "episodes"@ && reason == "duplicate key or missing show"@ && !database_decoded(
            shows,
            episodes,
        ).wf(),
{
    if exists|k: int|
        #[trigger] first_faulty_show(shows, k) && table == "shows"@ && show_fault(shows[k]) == Some(
            reason,
        ) {
        let k = choose|k: int|
            #[trigger] first_faulty_show(shows, k) && table == "shows"@ && show_fault(shows[k])
                == Some(reason);
        assert(show_fault(shows[k]) is Some);
        if 0 <= i < shows.len() && show_fault(shows[i]) is Some && (forall|j: int|
            0 <= j < i ==> show_fault(#[trigger] shows[j]) is None) {
            assert(i == k);
        }
    } else if exists|k: int|
        #[trigger] first_faulty_episode(episodes, k) && table == "episodes"@ && episode_fault(
            episodes[k],
        ) == Some(reason) {
        let k = choose|k: int|
            #[trigger] first_faulty_episode(episodes, k) && table == "episodes"@ && episode_fault(
                episodes[k],
            ) == Some(reason);
        assert(episode_fault(episodes[k]) is Some);
        if 0 <= i < episodes.len() && episode_fault(episodes[i]) is Some && (forall|j: int|
            0 <= j < i ==> episode_fault(#[trigger] episodes[j]) is None) {
            assert(i == k);
        }
    }
}

} // verus!
