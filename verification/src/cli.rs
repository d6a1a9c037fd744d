//! What the command line decides and shows.
//!
//! Every command reads from the cache or the server, hands plain values to this
//! module, and prints what comes back: a line of text, or a JSON value.

use vstd::prelude::*;

use crate::account::{missing_account, no_account, Account, AccountId};
use crate::api::{DeviceRecord, RetryPolicy, SendRequest, SendResponse};
use crate::database::{Bind, BindView, Statement};
use crate::delay::Delay;
use crate::error::{retryable, ClientError, ClientResult};
use crate::fcp::{law_a_submission_reads_back, send_view, text_or_none};
use crate::json::{
    ints_view, items_view, json_texts, lemma_items_view, lemma_members_pushed, texts_view, Json,
    JsonView, Members,
};
use crate::operations::FlushReport;
use crate::outbox::{
    insert_binds, item_of_row, law_a_queued_message_survives, legal, lists_read_back, row_inserted,
    state_after_failure, state_name, NewOutboxItem, OutboxCounts, OutboxItem, OutboxRow, OutboxState,
};
use crate::search::{SearchHit, SearchResults, SearchSource};
use crate::text::{
    begins_with, chars_of, concat3, contains, copy_list, copy_opt, debug_quoted, debug_text, decimal,
    decimal_signed, digits, ends_with, finishes_with, holds, join, joined, lowered, opt_view,
    parse_i64, parsed_i64, same, signed_digits, text_of, to_lower, views,
};
use crate::time::{rfc3339_text, to_rfc3339, Timestamp};

verus! {

// -- text ------------------------------------------------------------------

/// At most `max` characters, the last of them an ellipsis when any were cut.
pub open spec fn cut(value: Seq<char>, max: int) -> Seq<char> {
    if value.len() <= max {
        value
    } else {
        value.take(
            if max > 0 {
                max - 1
            } else {
                0
            },
        ).push('\u{2026}')
    }
}

/// Keep at most `max` characters of a value, marking a cut with an ellipsis.
pub fn truncate(value: &str, max: usize) -> (result: String)
    ensures
        result@ == cut(value@, max as int),
{
    let chars = chars_of(value);
    if chars.len() <= max {
        return value.to_owned();
    }
    let keep: usize = if max > 0 {
        max - 1
    } else {
        0
    };
    let mut out = text_of(&chars, 0, keep);
    proof {
        assert(chars@.subrange(0, keep as int) =~= value@.take(keep as int));
    }
    out.push('\u{2026}');
    out
}

/// A number of spaces.
pub open spec fn spaces(count: int) -> Seq<char> {
    Seq::new(
        (if count > 0 {
            count
        } else {
            0
        }) as nat,
        |i: int| ' ',
    )
}

/// The value, followed by spaces up to the width.
pub open spec fn padded_after(value: Seq<char>, width: int) -> Seq<char> {
    value + spaces(width - value.len())
}

/// The value, led by spaces up to the width.
pub open spec fn padded_before(value: Seq<char>, width: int) -> Seq<char> {
    spaces(width - value.len()) + value
}

fn blanks(count: usize) -> (result: String)
    ensures
        result@ == spaces(count as int),
{
    let mut out = String::new();
    let mut i: usize = 0;
    while i < count
        invariant
            i <= count,
            out@ == spaces(i as int),
        decreases count - i,
    {
        out.push(' ');
        proof {
            assert(spaces(i + 1) =~= spaces(i as int).push(' '));
        }
        i = i + 1;
    }
    out
}

fn pad_after(value: &str, width: usize) -> (result: String)
    ensures
        result@ == padded_after(value@, width as int),
{
    let length: usize = chars_of(value).len();
    let mut out = value.to_owned();
    let missing: usize = if length < width {
        width - length
    } else {
        0
    };
    out.append(blanks(missing).as_str());
    proof {
        assert(spaces(missing as int) =~= spaces(width - value@.len()));
    }
    out
}

fn pad_before(value: &str, width: usize) -> (result: String)
    ensures
        result@ == padded_before(value@, width as int),
{
    let length: usize = chars_of(value).len();
    let missing: usize = if length < width {
        width - length
    } else {
        0
    };
    let mut out = blanks(missing);
    out.append(value);
    proof {
        assert(spaces(missing as int) =~= spaces(width - value@.len()));
    }
    out
}

/// A cut value fits, begins as the value does, and is the value itself if that fits; a padded one
/// fills its column, and the value stands at the side it is meant to.
pub proof fn law_columns_keep_their_width(value: Seq<char>, width: int)
    requires
        width > 0,
    ensures
        cut(value, width).len() <= width,
        value.len() <= width ==> cut(value, width) == value,
        value.len() > width ==> cut(value, width).len() == width && cut(value, width).drop_last()
            == value.take(width - 1) && cut(value, width).last() == '\u{2026}',
        value.len() <= width ==> padded_after(value, width).len() == width && padded_before(
            value,
            width,
        ).len() == width,
        value.len() > width ==> padded_after(value, width) == value && padded_before(value, width)
            == value,
        padded_after(value, width).take(value.len() as int) == value,
        padded_before(value, width).skip(padded_before(value, width).len() - value.len()) == value,
{
    assert(cut(value, width).len() <= width);
    if value.len() > width {
        assert(cut(value, width).drop_last() =~= value.take(width - 1));
        assert(padded_after(value, width) =~= value);
        assert(padded_before(value, width) =~= value);
    }
    assert(padded_after(value, width).take(value.len() as int) =~= value);
    assert(padded_before(value, width).skip(padded_before(value, width).len() - value.len())
        =~= value);
}

// -- choices ---------------------------------------------------------------

/// The account a command works on: the one that was named, else the first of the
/// configured ones.
pub fn resolve_account(id: Option<i64>, accounts: &Vec<Account>) -> (result: ClientResult<AccountId>)
    ensures
        match id {
            Some(id) => result == ClientResult::<AccountId>::Ok(AccountId(id)),
            None => if accounts@.len() > 0 {
                result == ClientResult::<AccountId>::Ok(accounts@[0].id)
            } else {
                result matches Err(ClientError::NotFound(m)) && m@ == "no accounts configured"@
            },
        },
{
    match id {
        Some(id) => Ok(AccountId(id)),
        None => if accounts.len() > 0 {
            Ok(accounts[0].id)
        } else {
            Err(ClientError::not_found("no accounts configured"))
        },
    }
}

/// A cached folder.
#[derive(Debug, Clone, PartialEq, Eq)]
pub struct FolderView {
    /// The server-side folder id.
    pub id: i64,
    /// The name, `/`-separated for nesting.
    pub name: String,
}

/// Whether a folder has the given name, whatever the case of its letters.
pub open spec fn named(folder: FolderView, name: Seq<char>) -> bool {
    lowered(folder.name@) == lowered(name)
}

/// Whether the name of a folder ends in the given text, whatever the case.
pub open spec fn name_ends_in(folder: FolderView, name: Seq<char>) -> bool {
    finishes_with(lowered(folder.name@), lowered(name))
}

/// The first folder from index `i` on that has the name.
pub open spec fn first_named(folders: Seq<FolderView>, name: Seq<char>, i: int) -> Option<i64>
    decreases folders.len() - i,
{
    if i >= folders.len() {
        None
    } else if named(folders[i], name) {
        Some(folders[i].id)
    } else {
        first_named(folders, name, i + 1)
    }
}

/// The first folder from index `i` on whose name ends in the text.
pub open spec fn first_ending(folders: Seq<FolderView>, name: Seq<char>, i: int) -> Option<i64>
    decreases folders.len() - i,
{
    if i >= folders.len() {
        None
    } else if name_ends_in(folders[i], name) {
        Some(folders[i].id)
    } else {
        first_ending(folders, name, i + 1)
    }
}

/// The folder that an argument means: a number is an id, never a name; otherwise the
/// first folder of that name, else the first whose name ends in it.
pub open spec fn folder_meant(folders: Seq<FolderView>, folder: Seq<char>) -> Option<i64> {
    match parsed_i64(folder) {
        Some(id) => Some(id),
        None => match first_named(folders, folder, 0) {
            Some(id) => Some(id),
            None => first_ending(folders, folder, 0),
        },
    }
}

/// Resolve a folder by its numeric id, its name, or the end of its name; the case of
/// the letters does not matter.
pub fn resolve_folder(folders: &Vec<FolderView>, folder: &str) -> (result: ClientResult<i64>)
    ensures
        match folder_meant(folders@, folder@) {
            Some(id) => result == ClientResult::<i64>::Ok(id),
            None => result matches Err(ClientError::NotFound(m)) && m@ == "no folder named "@
                + debug_text(folder@),
        },
{
    match parse_i64(folder) {
        Some(id) => {
            return Ok(id);
        },
        None => {},
    }
    let wanted = to_lower(folder);
    let mut i: usize = 0;
    while i < folders.len()
        invariant
            i <= folders@.len(),
            wanted@ == lowered(folder@),
            parsed_i64(folder@) is None,
            first_named(folders@, folder@, 0) == first_named(folders@, folder@, i as int),
        decreases folders@.len() - i,
    {
        if same(to_lower(folders[i].name.as_str()).as_str(), wanted.as_str()) {
            return Ok(folders[i].id);
        }
        i = i + 1;
    }
    let mut i: usize = 0;
    while i < folders.len()
        invariant
            i <= folders@.len(),
            wanted@ == lowered(folder@),
            parsed_i64(folder@) is None,
            first_named(folders@, folder@, 0) is None,
            first_ending(folders@, folder@, 0) == first_ending(folders@, folder@, i as int),
        decreases folders@.len() - i,
    {
        if ends_with(to_lower(folders[i].name.as_str()).as_str(), wanted.as_str()) {
            return Ok(folders[i].id);
        }
        i = i + 1;
    }
    let mut message = "no folder named ".to_owned();
    message.append(debug_quoted(folder).as_str());
    Err(ClientError::NotFound(message))
}

proof fn lemma_first_named(folders: Seq<FolderView>, name: Seq<char>, i: int)
    requires
        0 <= i <= folders.len(),
    ensures
        first_named(folders, name, i) is None <==> forall|j: int|
            i <= j < folders.len() ==> !named(#[trigger] folders[j], name),
        first_named(folders, name, i) matches Some(id) ==> exists|k: int|
            i <= k < folders.len() && (#[trigger] folders[k]).id == id && named(folders[k], name)
                && forall|j: int| i <= j < k ==> !named(#[trigger] folders[j], name),
    decreases folders.len() - i,
{
    if i < folders.len() {
        lemma_first_named(folders, name, i + 1);
        if named(folders[i], name) {
            assert(folders[i].id == first_named(folders, name, i)->0);
        }
    }
}

proof fn lemma_first_ending(folders: Seq<FolderView>, name: Seq<char>, i: int)
    requires
        0 <= i <= folders.len(),
    ensures
        first_ending(folders, name, i) is None <==> forall|j: int|
            i <= j < folders.len() ==> !name_ends_in(#[trigger] folders[j], name),
        first_ending(folders, name, i) matches Some(id) ==> exists|k: int|
            i <= k < folders.len() && (#[trigger] folders[k]).id == id && name_ends_in(
                folders[k],
                name,
            ) && forall|j: int| i <= j < k ==> !name_ends_in(#[trigger] folders[j], name),
    decreases folders.len() - i,
{
    if i < folders.len() {
        lemma_first_ending(folders, name, i + 1);
        if name_ends_in(folders[i], name) {
            assert(folders[i].id == first_ending(folders, name, i)->0);
        }
    }
}

/// A folder is the one that was meant. A number is an id and nothing else. Otherwise a folder of
/// that very name is preferred to one whose name only ends in it, the first of several is taken,
/// and there is none only if no name ends that way; the case of the letters plays no part.
pub proof fn law_a_folder_is_found_by_name(folders: Seq<FolderView>, name: Seq<char>)
    ensures
        parsed_i64(name) matches Some(id) ==> folder_meant(folders, name) == Some(id),
        parsed_i64(name) is None ==> {
            let same_name = |k: int| lowered(folders[k].name@) == lowered(name);
            let same_end = |k: int|
                {
                    let whole = lowered(folders[k].name@);
                    let end = lowered(name);
                    end.len() <= whole.len() && whole.skip(whole.len() - end.len()) == end
                };
            &&& folder_meant(folders, name) is None <==> forall|k: int|
                0 <= k < folders.len() ==> !#[trigger] same_end(k)
            &&& folder_meant(folders, name) matches Some(id) ==> exists|k: int|
                0 <= k < folders.len() && folders[k].id == id && #[trigger] same_end(k) && (
                if exists|j: int| 0 <= j < folders.len() && #[trigger] same_name(j) {
                    same_name(k) && forall|j: int| 0 <= j < k ==> !#[trigger] same_name(j)
                } else {
                    forall|j: int| 0 <= j < k ==> !#[trigger] same_end(j)
                })
        },
{
    if parsed_i64(name) is None {
        let same_name = |k: int| lowered(folders[k].name@) == lowered(name);
        let same_end = |k: int|
            {
                let whole = lowered(folders[k].name@);
                let end = lowered(name);
                end.len() <= whole.len() && whole.skip(whole.len() - end.len()) == end
            };
        assert forall|k: int| 0 <= k < folders.len() implies #[trigger] same_end(k) == name_ends_in(
            folders[k],
            name,
        ) && (same_name(k) ==> same_end(k)) by {
            let whole = lowered(folders[k].name@);
            assert(whole.skip(0) =~= whole);
        }
        assert forall|k: int| 0 <= k < folders.len() implies #[trigger] same_name(k) == named(
            folders[k],
            name,
        ) by {
        }
        lemma_first_named(folders, name, 0);
        lemma_first_ending(folders, name, 0);
        if let Some(id) = first_named(folders, name, 0) {
            let k = choose|k: int|
                0 <= k < folders.len() && (#[trigger] folders[k]).id == id && named(
                    folders[k],
                    name,
                ) && forall|j: int| 0 <= j < k ==> !named(#[trigger] folders[j], name);
            assert(same_name(k));
            assert(same_end(k));
        } else {
            assert forall|j: int| 0 <= j < folders.len() implies !#[trigger] same_name(j) by {
                assert(!named(folders[j], name));
            }
            if let Some(id) = first_ending(folders, name, 0) {
                let k = choose|k: int|
                    0 <= k < folders.len() && (#[trigger] folders[k]).id == id && name_ends_in(
                        folders[k],
                        name,
                    ) && forall|j: int| 0 <= j < k ==> !name_ends_in(#[trigger] folders[j], name);
                assert(same_end(k));
                assert forall|j: int| 0 <= j < k implies !#[trigger] same_end(j) by {
                    assert(!name_ends_in(folders[j], name));
                }
            } else {
                assert forall|k: int| 0 <= k < folders.len() implies !#[trigger] same_end(k) by {
                    assert(!name_ends_in(folders[k], name));
                }
            }
        }
    }
}

/// The accounts a sync covers: the one that was asked for, given its row, else all.
pub fn accounts_to_sync(
    id: Option<i64>,
    found: Option<Account>,
    all: Vec<Account>,
) -> (result: ClientResult<Vec<Account>>)
    ensures
        match id {
            Some(id) => match found {
                Some(account) => result is Ok && result->Ok_0@ == seq![account],
                None => result matches Err(ClientError::NotFound(m)) && m@ == no_account(
                    AccountId(id),
                ),
            },
            None => if all@.len() > 0 {
                result == ClientResult::<Vec<Account>>::Ok(all)
            } else {
                result matches Err(ClientError::NotFound(m)) && m@ == "no accounts to sync"@
            },
        },
{
    match id {
        Some(id) => match found {
            Some(account) => {
                let mut out: Vec<Account> = Vec::new();
                out.push(account);
                assert(out@ =~= seq![account]);
                Ok(out)
            },
            None => Err(missing_account(AccountId(id))),
        },
        None => if all.len() > 0 {
            Ok(all)
        } else {
            Err(ClientError::not_found("no accounts to sync"))
        },
    }
}

/// Who a message is from.
pub open spec fn sender_of(
    given: Option<Seq<char>>,
    primary: Option<Seq<char>>,
    email: Seq<char>,
) -> Seq<char> {
    match (given, primary) {
        (Some(address), _) => address,
        (None, Some(address)) => address,
        (None, None) => email,
    }
}

/// What the user says counts, whatever the account says, and what the account's primary address
/// says counts before the address that it signs in with.
pub proof fn law_the_sender_is_who_the_user_says(
    given: Seq<char>,
    primary: Option<Seq<char>>,
    other: Option<Seq<char>>,
    email: Seq<char>,
    login: Seq<char>,
)
    ensures
        sender_of(Some(given), primary, email) == given,
        sender_of(Some(given), primary, email) == sender_of(Some(given), other, login),
        primary is Some ==> sender_of(None, primary, email) == sender_of(None, primary, login),
        primary is Some ==> sender_of(None, primary, email) == sender_of(primary, None, email),
        sender_of(None, None, email) == email,
{
}

/// The `From:` address of a message: the one that was given, else the account's
/// primary address, else the address it signs in with.
pub fn from_address(from: Option<String>, primary: Option<String>, email: &str) -> (result: String)
    ensures
        result@ == sender_of(opt_view(from), opt_view(primary), email@),
{
    match from {
        Some(given) => given,
        None => match primary {
            Some(address) => address,
            None => email.to_owned(),
        },
    }
}

/// A line without the line breaks at its end.
pub open spec fn without_breaks(line: Seq<char>) -> Seq<char>
    decreases line.len(),
{
    if line.len() > 0 && (line.last() == '\r' || line.last() == '\n') {
        without_breaks(line.drop_last())
    } else {
        line
    }
}

/// A password keeps its characters: only the line breaks at the end of the line are taken off,
/// all of them and nothing else.
pub proof fn law_a_password_keeps_its_characters(line: Seq<char>)
    ensures
        ({
            let kept = without_breaks(line);
            &&& kept.len() <= line.len() && line.take(kept.len() as int) == kept
            &&& kept.len() > 0 ==> kept.last() != '\r' && kept.last() != '\n'
            &&& forall|i: int|
                kept.len() <= i < line.len() ==> #[trigger] line[i] == '\r' || line[i] == '\n'
        }),
    decreases line.len(),
{
    assert(line.take(line.len() as int) =~= line);
    if line.len() > 0 && (line.last() == '\r' || line.last() == '\n') {
        let rest = line.drop_last();
        law_a_password_keeps_its_characters(rest);
        let kept = without_breaks(line);
        assert(rest.take(kept.len() as int) =~= line.take(kept.len() as int));
        assert forall|i: int| kept.len() <= i < line.len() implies #[trigger] line[i] == '\r'
            || line[i] == '\n' by {
            if i < rest.len() {
                assert(rest[i] == line[i]);
            }
        }
    }
}

/// The password on the line that was typed.
pub fn password_of(line: &str) -> (result: ClientResult<String>)
    ensures
        if without_breaks(line@).len() == 0 {
            result matches Err(ClientError::Invalid(m)) && m@
                == "no password given (use --password, FERROMA_PASSWORD, or the prompt)"@
        } else {
            result is Ok && result->Ok_0@ == without_breaks(line@)
        },
{
    let chars = chars_of(line);
    let mut end: usize = chars.len();
    proof {
        assert(line@.take(end as int) =~= line@);
    }
    while end > 0 && (chars[end - 1] == '\r' || chars[end - 1] == '\n')
        invariant
            end <= chars@.len(),
            chars@ == line@,
            without_breaks(line@.take(end as int)) == without_breaks(line@),
        decreases end,
    {
        proof {
            assert(line@.take(end as int).drop_last() =~= line@.take(end - 1));
            assert(line@.take(end as int).last() == chars@[end - 1]);
        }
        end = end - 1;
    }
    proof {
        if end > 0 {
            assert(line@.take(end as int).last() == chars@[end - 1]);
        }
        assert(chars@.subrange(0, end as int) =~= line@.take(end as int));
    }
    if end == 0 {
        return Err(
            ClientError::invalid(
                "no password given (use --password, FERROMA_PASSWORD, or the prompt)",
            ),
        );
    }
    Ok(text_of(&chars, 0, end))
}

// -- flushing the outbox ---------------------------------------------------

/// What one flush pass did.
#[derive(Debug, Clone, Copy, PartialEq, Eq, Structural)]
pub struct FlushSummary {
    /// Operations the server accepted and that were removed from the queue.
    pub operations_applied: usize,
    /// Outbox items the server accepted.
    pub sent: usize,
    /// Outbox items that failed and are waiting to be retried.
    pub failed: usize,
}

/// The retry policy of a flush: none when the user asked for none.
pub fn flush_policy(no_retry: bool) -> (result: RetryPolicy)
    ensures
        result == (RetryPolicy {
            max_attempts: if no_retry {
                1
            } else {
                4
            },
            base_delay: Delay { millis: 250 },
            max_delay: Delay { millis: 20_000 },
            max_retry_after: Delay { millis: 60_000 },
        }),
{
    if no_retry {
        RetryPolicy::none()
    } else {
        RetryPolicy::default()
    }
}

/// The states that an item is taken through before it is handed to the server: its
/// attachments first when it has any, then the queue, then sending.
pub open spec fn delivery_path(state: OutboxState, attachments: int) -> Seq<OutboxState> {
    if state == OutboxState::Pending && attachments > 0 {
        seq![OutboxState::Uploading, OutboxState::Queued, OutboxState::Sending]
    } else if state == OutboxState::Pending || state == OutboxState::Uploading {
        seq![OutboxState::Queued, OutboxState::Sending]
    } else {
        seq![OutboxState::Sending]
    }
}

/// The states that an item is taken through before it is handed to the server.
pub fn delivery_steps(state: OutboxState, attachments: usize) -> (result: Vec<OutboxState>)
    ensures
        result@ == delivery_path(state, attachments as int),
{
    let mut current = state;
    let mut steps: Vec<OutboxState> = Vec::new();
    if current == OutboxState::Pending {
        current = if attachments == 0 {
            OutboxState::Queued
        } else {
            OutboxState::Uploading
        };
        steps.push(current);
    }
    if current == OutboxState::Uploading {
        steps.push(OutboxState::Queued);
    }
    steps.push(OutboxState::Sending);
    assert(steps@ =~= delivery_path(state, attachments as int));
    steps
}

/// Whether `request` hands in `item`, under its idempotency key.
pub open spec fn request_of(request: SendRequest, item: OutboxItem) -> bool {
    &&& request.operation_id == item.operation_id
    &&& request.mailbox_id == item.mailbox_id
    &&& request.from == Some(item.from_address)
    &&& request.to@ == item.to@
    &&& request.cc@ == item.cc@
    &&& request.bcc@ == item.bcc@
    &&& request.subject == item.subject
    &&& request.text == item.text_body
    &&& request.html == item.html_body
    &&& request.attachment_ids@ == item.attachment_ids@
    &&& request.in_reply_to == item.in_reply_to
    &&& request.references@ == item.references@
}

/// The request that hands an item to the server, under its idempotency key.
pub fn send_request(item: &OutboxItem) -> (result: SendRequest)
    ensures
        request_of(result, *item),
{
    SendRequest {
        operation_id: item.operation_id.clone(),
        mailbox_id: item.mailbox_id,
        from: Some(item.from_address.clone()),
        to: copy_list(&item.to),
        cc: copy_list(&item.cc),
        bcc: copy_list(&item.bcc),
        subject: item.subject.clone(),
        text: copy_opt(&item.text_body),
        html: copy_opt(&item.html_body),
        attachment_ids: item.attachment_ids.clone(),
        in_reply_to: copy_opt(&item.in_reply_to),
        references: copy_list(&item.references),
    }
}

/// What was composed is what is sent. The request that hands in an item which was read from the
/// row of an enqueue carries the message that was put in: the server finds each recipient in the
/// list it was put in, each body as what it is, the headers of a reply, the attachments, and the
/// key that the message was queued under.
pub proof fn law_what_was_composed_is_what_is_sent(
    content: NewOutboxItem,
    row: OutboxRow,
    item: OutboxItem,
    request: SendRequest,
    operation_id: Seq<char>,
    written_at: Seq<char>,
    now: Timestamp,
)
    requires
        lists_read_back(content),
        row_inserted(row, insert_binds(content, operation_id, written_at)),
        item_of_row(item, row, now),
        request_of(request, item),
    ensures
        ({
            let body = send_view(request);
            &&& body.member("operation_id"@) == Some(JsonView::Text(operation_id))
            &&& body.member("mailbox_id"@) == (match content.mailbox_id {
                Some(id) => Some(JsonView::Int(id as int)),
                None => None,
            })
            &&& body.member("from"@) == Some(JsonView::Text(content.from_address@))
            &&& body.member("to"@) == Some(texts_view(content.to@))
            &&& body.member("cc"@) == Some(texts_view(content.cc@))
            &&& body.member("bcc"@) == Some(texts_view(content.bcc@))
            &&& body.member("subject"@) == Some(JsonView::Text(content.subject@))
            &&& body.member("text"@) == text_or_none(content.text_body)
            &&& body.member("html"@) == text_or_none(content.html_body)
            &&& body.member("attachment_ids"@) == Some(ints_view(content.attachment_ids@))
            &&& body.member("in_reply_to"@) == text_or_none(content.in_reply_to)
            &&& body.member("references"@) == Some(texts_view(content.references@))
        }),
{
    law_a_queued_message_survives(item, row, content, operation_id, written_at, now);
    law_a_submission_reads_back(request);
    lemma_same_texts(request.to@, content.to@);
    lemma_same_texts(request.cc@, content.cc@);
    lemma_same_texts(request.bcc@, content.bcc@);
    lemma_same_texts(request.references@, content.references@);
}

/// Lists with the same texts are the same in JSON.
proof fn lemma_same_texts(a: Seq<String>, b: Seq<String>)
    requires
        views(a) == views(b),
    ensures
        texts_view(a) == texts_view(b),
{
    assert(views(a).len() == a.len() && views(b).len() == b.len());
    assert forall|i: int| 0 <= i < a.len() implies (#[trigger] a[i])@ == b[i]@ by {
        assert(views(a)[i] == views(b)[i]);
    }
    assert(texts_view(a)->Array_0 =~= texts_view(b)->Array_0);
}

/// What the server's answer does to an outbox item.
#[derive(Debug, Clone, PartialEq, Eq)]
pub enum Delivery {
    /// It is sent.
    Sent {
        /// The stored copy in the Sent folder.
        message_id: Option<i64>,
        /// How many recipients were enqueued.
        queued: i64,
    },
    /// The attempt failed.
    Failed {
        /// Why, for the user.
        message: String,
        /// Whether another attempt can succeed.
        retryable: bool,
    },
}

/// Whether `delivery` is what an answer of the server does to an outbox item.
pub open spec fn delivery_of(delivery: Delivery, answer: ClientResult<SendResponse>) -> bool {
    match answer {
        Ok(response) => delivery == (Delivery::Sent {
            message_id: response.message_id,
            queued: response.queued,
        }),
        Err(error) => {
            &&& delivery matches Delivery::Failed { message, retryable: again }
            &&& message@ == crate::operations::shown(error)
            &&& again == retryable(error)
        },
    }
}

/// The answer decides where an item that is being sent goes: an acceptance makes it sent, under
/// the id and the number of recipients that the server gave; a failure that may pass leaves it to
/// be retried, and any other failure ends it, and the user is told why.
pub proof fn law_the_answer_decides(delivery: Delivery, answer: ClientResult<SendResponse>)
    requires
        delivery_of(delivery, answer),
    ensures
        delivery is Sent <==> answer is Ok,
        answer matches Ok(response) ==> (delivery matches Delivery::Sent { message_id, queued }
            && message_id == response.message_id && queued == response.queued),
        answer matches Err(error) ==> (delivery matches Delivery::Failed { message, retryable: again }
            && state_after_failure(OutboxState::Sending, again) == (if retryable(error) {
            OutboxState::Retrying
        } else {
            OutboxState::Failed
        }) && (error matches ClientError::Api(api) ==> message@ == api.message@)),
{
}

/// An item is taken through no state that it does not need and misses none that it does: it is
/// uploading only on the way from waiting and only if it has attachments, and it is queued unless
/// it has been; no state comes twice.
pub proof fn law_the_path_is_the_shortest(state: OutboxState, attachments: int)
    requires
        state == OutboxState::Pending || state == OutboxState::Uploading || state
            == OutboxState::Retrying || state == OutboxState::Queued,
    ensures
        ({
            let path = delivery_path(state, attachments);
            &&& path.contains(OutboxState::Uploading) <==> state == OutboxState::Pending
                && attachments > 0
            &&& path.contains(OutboxState::Queued) <==> state == OutboxState::Pending || state
                == OutboxState::Uploading
            &&& !path.contains(state)
            &&& path.no_duplicates()
            &&& path.len() > 0 && path.last() == OutboxState::Sending
        }),
{
    let path = delivery_path(state, attachments);
    if state == OutboxState::Pending && attachments > 0 {
        assert(path[0] == OutboxState::Uploading && path[1] == OutboxState::Queued);
    } else if state == OutboxState::Pending || state == OutboxState::Uploading {
        assert(path[0] == OutboxState::Queued);
    }
}

impl FlushSummary {
    /// The summary with one more item, accepted or not.
    pub open spec fn counting(self, accepted: bool) -> FlushSummary {
        if accepted {
            FlushSummary { sent: (self.sent + 1) as usize, ..self }
        } else {
            FlushSummary { failed: (self.failed + 1) as usize, ..self }
        }
    }

    /// The summary of a pass that has handed nothing in yet.
    pub fn new(operations_applied: usize) -> (result: FlushSummary)
        ensures
            result == (FlushSummary { operations_applied, sent: 0, failed: 0 }),
    {
        FlushSummary { operations_applied, sent: 0, failed: 0 }
    }

    /// Count the server's answer to one item, and say what it does to the item.
    pub fn on_answer(&mut self, answer: ClientResult<SendResponse>) -> (result: Delivery)
        requires
            old(self).sent < usize::MAX,
            old(self).failed < usize::MAX,
        ensures
            delivery_of(result, answer),
            *final(self) == old(self).counting(answer is Ok),
    {
        match answer {
            Ok(response) => {
                self.sent = self.sent + 1;
                Delivery::Sent { message_id: response.message_id, queued: response.queued }
            },
            Err(error) => {
                self.failed = self.failed + 1;
                Delivery::Failed { message: error.user_message(), retryable: error.is_retryable() }
            },
        }
    }
}

// -- the pass over the outbox ----------------------------------------------

/// What a pass over the outbox asks for next.
#[derive(Debug, Clone, PartialEq, Eq)]
pub enum OutboxStep {
    /// Flush the offline queue.
    FlushQueue,
    /// List the items in this state.
    List(OutboxState),
    /// Take an item to its next state.
    Move {
        /// The item.
        id: i64,
        /// The state.
        next: OutboxState,
    },
    /// Hand an item to the server.
    Send {
        /// The item.
        id: i64,
        /// The request that hands it in.
        request: SendRequest,
    },
    /// Nothing: the pass is over.
    Done,
}

/// What an [`OutboxStep`] stands for.
pub enum StepView {
    /// Flush the offline queue.
    FlushQueue,
    /// List the items in this state.
    List(OutboxState),
    /// Take an item to its next state.
    Move {
        /// The item.
        id: i64,
        /// The state.
        next: OutboxState,
    },
    /// Hand this item to the server.
    Send(OutboxItem),
    /// Nothing.
    Done,
}

/// Whether `step` is the one that `view` stands for; a send carries the request of its
/// item.
pub open spec fn step_is(step: OutboxStep, view: StepView) -> bool {
    match view {
        StepView::FlushQueue => step == OutboxStep::FlushQueue,
        StepView::List(state) => step == OutboxStep::List(state),
        StepView::Move { id, next } => step == (OutboxStep::Move { id, next }),
        StepView::Send(item) => {
            &&& step matches OutboxStep::Send { id, request }
            &&& id == item.id
            &&& request_of(request, item)
        },
        StepView::Done => step == OutboxStep::Done,
    }
}

/// A send step hands in its item: it carries the item's id, and the server finds in its request
/// the item's key, sender, recipients, subject and bodies, each under its own name.
pub proof fn law_a_send_step_hands_in_its_item(step: OutboxStep, item: OutboxItem)
    requires
        step_is(step, StepView::Send(item)),
    ensures
        step matches OutboxStep::Send { id, request } && id == item.id && {
            let body = send_view(request);
            &&& body.member("operation_id"@) == Some(JsonView::Text(item.operation_id@))
            &&& body.member("from"@) == Some(JsonView::Text(item.from_address@))
            &&& body.member("to"@) == Some(texts_view(item.to@))
            &&& body.member("cc"@) == Some(texts_view(item.cc@))
            &&& body.member("bcc"@) == Some(texts_view(item.bcc@))
            &&& body.member("subject"@) == Some(JsonView::Text(item.subject@))
            &&& body.member("text"@) == text_or_none(item.text_body)
            &&& body.member("html"@) == text_or_none(item.html_body)
        },
{
    if let OutboxStep::Send { id, request } = step {
        law_a_submission_reads_back(request);
    }
}

/// What answers a step.
pub enum PassEvent {
    /// The offline queue was flushed, and so many operations were accepted.
    Flushed(usize),
    /// The items that were asked for.
    Listed(Seq<OutboxItem>),
    /// The item was moved.
    Moved,
    /// The server answered, and accepted the item or not.
    Answered(bool),
}

/// Where a pass over the outbox stands.
#[verifier::ext_equal]
pub struct PassView {
    /// Whether the offline queue was flushed.
    pub flushed: bool,
    /// The state whose items were listed last.
    pub listed: Option<OutboxState>,
    /// The listed items that were not handed in yet.
    pub left: Seq<OutboxItem>,
    /// How many states the first of them was taken through.
    pub taken: int,
    /// What was done so far.
    pub summary: FlushSummary,
    /// The steps that were answered, in order.
    pub history: Seq<StepView>,
}

/// The states that an item is taken through before it is handed to the server.
pub open spec fn path_of(item: OutboxItem) -> Seq<OutboxState> {
    delivery_path(item.state, item.attachment_ids@.len() as int)
}

/// A pass that has done nothing yet.
pub open spec fn fresh_pass() -> PassView {
    PassView {
        flushed: false,
        listed: None,
        left: Seq::empty(),
        taken: 0,
        summary: FlushSummary { operations_applied: 0, sent: 0, failed: 0 },
        history: Seq::empty(),
    }
}

impl PassView {
    /// The step to take: the offline queue goes first, because its operations are the
    /// ones the user already made. Then the waiting items are listed and handed in, one
    /// by one and each through its whole path, and then those that are to be retried.
    pub open spec fn next_step(self) -> StepView {
        if !self.flushed {
            StepView::FlushQueue
        } else if self.left.len() > 0 {
            let item = self.left[0];
            if self.taken < path_of(item).len() {
                StepView::Move { id: item.id, next: path_of(item)[self.taken] }
            } else {
                StepView::Send(item)
            }
        } else {
            match self.listed {
                None => StepView::List(OutboxState::Pending),
                Some(OutboxState::Pending) => StepView::List(OutboxState::Retrying),
                Some(_) => StepView::Done,
            }
        }
    }

    /// Whether `event` answers the step to take.
    pub open spec fn expects(self, event: PassEvent) -> bool {
        match event {
            PassEvent::Flushed(_) => self.next_step() is FlushQueue,
            PassEvent::Listed(_) => self.next_step() is List,
            PassEvent::Moved => self.next_step() is Move,
            PassEvent::Answered(_) => self.next_step() is Send,
        }
    }

    /// The pass after its step was answered.
    pub open spec fn after(self, event: PassEvent) -> PassView {
        let history = self.history.push(self.next_step());
        match event {
            PassEvent::Flushed(applied) => PassView {
                flushed: true,
                summary: FlushSummary { operations_applied: applied, sent: 0, failed: 0 },
                history,
                ..self
            },
            PassEvent::Listed(items) => PassView {
                listed: Some(self.next_step()->List_0),
                left: items,
                taken: 0,
                history,
                ..self
            },
            PassEvent::Moved => PassView { taken: self.taken + 1, history, ..self },
            PassEvent::Answered(accepted) => PassView {
                left: self.left.drop_first(),
                taken: 0,
                summary: self.summary.counting(accepted),
                history,
                ..self
            },
        }
    }
}

/// One pass over the outbox of an account. The shell takes the step that
/// [`OutboxPass::next`] gives, and answers it.
pub struct OutboxPass {
    flushed: bool,
    listed: Option<OutboxState>,
    items: Vec<OutboxItem>,
    done: usize,
    taken: usize,
    summary: FlushSummary,
    history: Ghost<Seq<StepView>>,
}

impl OutboxPass {
    /// Where the pass stands.
    pub closed spec fn view(&self) -> PassView {
        PassView {
            flushed: self.flushed,
            listed: self.listed,
            left: self.items@.skip(self.done as int),
            taken: self.taken as int,
            summary: self.summary,
            history: self.history@,
        }
    }

    /// The pass is somewhere among the items that were listed.
    pub closed spec fn wf(&self) -> bool {
        self.done <= self.items@.len()
    }

    /// A pass that has done nothing yet.
    pub fn new() -> (result: OutboxPass)
        ensures
            result.wf(),
            result@ == fresh_pass(),
    {
        let result = OutboxPass {
            flushed: false,
            listed: None,
            items: Vec::new(),
            done: 0,
            taken: 0,
            summary: FlushSummary::new(0),
            history: Ghost(Seq::empty()),
        };
        proof {
            assert(result@ =~= fresh_pass());
        }
        result
    }

    /// What the pass did so far.
    pub fn summary(&self) -> (result: FlushSummary)
        ensures
            result == self@.summary,
    {
        self.summary
    }

    /// The step to take.
    pub fn next(&self) -> (result: OutboxStep)
        requires
            self.wf(),
        ensures
            step_is(result, self@.next_step()),
    {
        if !self.flushed {
            return OutboxStep::FlushQueue;
        }
        if self.done < self.items.len() {
            let item = &self.items[self.done];
            proof {
                assert(self@.left[0] == *item);
            }
            let steps = delivery_steps(item.state, item.attachment_ids.len());
            if self.taken < steps.len() {
                return OutboxStep::Move { id: item.id, next: steps[self.taken] };
            }
            return OutboxStep::Send { id: item.id, request: send_request(item) };
        }
        match self.listed {
            None => OutboxStep::List(OutboxState::Pending),
            Some(OutboxState::Pending) => OutboxStep::List(OutboxState::Retrying),
            Some(_) => OutboxStep::Done,
        }
    }

    /// The offline queue was flushed.
    pub fn on_queue(&mut self, report: &FlushReport)
        requires
            old(self).wf(),
            old(self)@.next_step() is FlushQueue,
        ensures
            final(self).wf(),
            final(self)@ == old(self)@.after(PassEvent::Flushed(report.applied.len())),
    {
        let ghost before = self@;
        self.flushed = true;
        self.summary = FlushSummary::new(report.applied.len());
        proof {
            self.history@ = self.history@.push(before.next_step());
        }
    }

    /// These are the items in the state that was asked for.
    pub fn on_items(&mut self, items: Vec<OutboxItem>)
        requires
            old(self).wf(),
            old(self)@.next_step() is List,
        ensures
            final(self).wf(),
            final(self)@ == old(self)@.after(PassEvent::Listed(items@)),
    {
        let ghost before = self@;
        let state = match self.listed {
            None => OutboxState::Pending,
            Some(_) => OutboxState::Retrying,
        };
        self.listed = Some(state);
        self.items = items;
        self.done = 0;
        self.taken = 0;
        proof {
            self.history@ = self.history@.push(before.next_step());
            assert(self@ =~= before.after(PassEvent::Listed(items@)));
        }
    }

    /// The item is in its next state.
    pub fn on_moved(&mut self)
        requires
            old(self).wf(),
            old(self)@.next_step() is Move,
        ensures
            final(self).wf(),
            final(self)@ == old(self)@.after(PassEvent::Moved),
    {
        let ghost before = self@;
        self.taken = self.taken + 1;
        proof {
            self.history@ = self.history@.push(before.next_step());
        }
    }

    /// The server answered: count that, say what it does to the item, and go on to the
    /// next one.
    pub fn on_answer(&mut self, answer: ClientResult<SendResponse>) -> (result: Delivery)
        requires
            old(self).wf(),
            old(self)@.next_step() is Send,
            old(self)@.summary.sent < usize::MAX,
            old(self)@.summary.failed < usize::MAX,
        ensures
            final(self).wf(),
            final(self)@ == old(self)@.after(PassEvent::Answered(answer is Ok)),
            delivery_of(result, answer),
    {
        let ghost before = self@;
        let total: usize = self.items.len();
        assert(self.done < total);
        let delivery = self.summary.on_answer(answer);
        self.done = self.done + 1;
        self.taken = 0;
        proof {
            self.history@ = self.history@.push(before.next_step());
            assert(self@.left =~= before.left.drop_first());
        }
        delivery
    }
}

/// Where a pass stands after some events, each of which answers its step.
pub open spec fn pass_after(events: Seq<PassEvent>) -> Option<PassView>
    decreases events.len(),
{
    if events.len() == 0 {
        Some(fresh_pass())
    } else {
        match pass_after(events.drop_last()) {
            Some(pass) => if pass.expects(events.last()) {
                Some(pass.after(events.last()))
            } else {
                None
            },
            None => None,
        }
    }
}

/// Whether the steps just before the `i`-th take the item through its whole path.
pub open spec fn whole_path_before(history: Seq<StepView>, i: int, item: OutboxItem) -> bool {
    moves_before(history, i, item, path_of(item).len() as int)
}

/// Whether the `count` steps just before the `i`-th are the first moves of the item.
pub open spec fn moves_before(history: Seq<StepView>, i: int, item: OutboxItem, count: int) -> bool {
    &&& 0 <= count <= i <= history.len()
    &&& forall|k: int|
        0 <= k < count ==> #[trigger] history[i - count + k] == (StepView::Move {
            id: item.id,
            next: path_of(item)[k],
        })
}

/// What holds of every pass: how its steps began, that every send had its moves, and that
/// the item under way had those that were counted.
spec fn orderly(pass: PassView) -> bool {
    &&& pass.flushed <==> pass.history.len() > 0
    &&& pass.history.len() > 0 ==> pass.history[0] is FlushQueue
    &&& pass.history.len() > 1 ==> pass.history[1] == StepView::List(OutboxState::Pending)
    &&& pass.listed is Some <==> pass.history.len() > 1
    &&& pass.left.len() > 0 ==> pass.listed is Some
    &&& pass.left.len() > 0 ==> pass.taken <= path_of(pass.left[0]).len() && moves_before(
        pass.history,
        pass.history.len() as int,
        pass.left[0],
        pass.taken,
    )
    &&& forall|i: int|
        0 <= i < pass.history.len() ==> (#[trigger] pass.history[i] matches StepView::Send(item)
            ==> i > 1 && whole_path_before(pass.history, i, item))
}

proof fn lemma_orderly(pass: PassView, event: PassEvent)
    requires
        orderly(pass),
        pass.expects(event),
    ensures
        orderly(pass.after(event)),
{
    let after = pass.after(event);
    let n = pass.history.len() as int;
    assert forall|i: int| 0 <= i < after.history.len() implies (#[trigger] after.history[i] matches
        StepView::Send(item) ==> i > 1 && whole_path_before(after.history, i, item)) by {
        if i < n {
            assert(after.history[i] == pass.history[i]);
            if let StepView::Send(item) = pass.history[i] {
                let count = path_of(item).len() as int;
                assert forall|k: int| 0 <= k < count implies #[trigger] after.history[i - count + k]
                    == (StepView::Move { id: item.id, next: path_of(item)[k] }) by {
                    assert(after.history[i - count + k] == pass.history[i - count + k]);
                }
            }
        } else if let StepView::Send(item) = after.history[i] {
            let count = path_of(item).len() as int;
            assert(item == pass.left[0] && pass.taken == count);
            assert forall|k: int| 0 <= k < count implies #[trigger] after.history[i - count + k]
                == (StepView::Move { id: item.id, next: path_of(item)[k] }) by {
                assert(after.history[i - count + k] == pass.history[n - count + k]);
            }
        }
    }
    if after.left.len() > 0 && event is Moved {
        let item = pass.left[0];
        let count = after.taken;
        assert forall|k: int| 0 <= k < count implies #[trigger] after.history[n + 1 - count + k]
            == (StepView::Move { id: item.id, next: path_of(item)[k] }) by {
            if k < pass.taken {
                assert(after.history[n + 1 - count + k] == pass.history[n - pass.taken + k]);
            }
        }
    }
}

proof fn lemma_pass_orderly(events: Seq<PassEvent>)
    ensures
        pass_after(events) matches Some(pass) ==> orderly(pass),
    decreases events.len(),
{
    if events.len() > 0 {
        lemma_pass_orderly(events.drop_last());
        if let Some(pass) = pass_after(events.drop_last()) {
            if pass.expects(events.last()) {
                lemma_orderly(pass, events.last());
            }
        }
    }
}

/// Nothing is handed in before its time: a pass flushes the offline queue first and lists
/// the waiting items second, and whatever it hands to the server, or is about to, it has
/// taken through its whole path just before.
pub proof fn law_a_send_follows_its_steps(events: Seq<PassEvent>, i: int)
    requires
        pass_after(events) is Some,
        0 <= i < pass_after(events)->0.history.len(),
    ensures
        ({
            let pass = pass_after(events)->0;
            &&& pass.history[0] is FlushQueue
            &&& i == 1 ==> pass.history[i] == StepView::List(OutboxState::Pending)
            &&& pass.history[i] matches StepView::Send(item) ==> i > 1 && whole_path_before(
                pass.history,
                i,
                item,
            )
            &&& pass.next_step() matches StepView::Send(item) ==> whole_path_before(
                pass.history,
                pass.history.len() as int,
                item,
            )
        }),
{
    lemma_pass_orderly(events);
}

/// Whether a message went out with the flush that followed it, and if not, why.
pub fn send_detail(flush: &ClientResult<FlushSummary>) -> (result: (bool, Option<String>))
    ensures
        match flush {
            Ok(summary) => if summary.sent > 0 {
                result.0 && result.1 is None
            } else {
                !result.0 && opt_view(result.1) == Some("the server did not accept it yet"@)
            },
            Err(error) => !result.0 && opt_view(result.1) == Some(crate::operations::shown(*error)),
        },
{
    match flush {
        Ok(summary) => if summary.sent > 0 {
            (true, None)
        } else {
            (false, Some("the server did not accept it yet".to_owned()))
        },
        Err(error) => (false, Some(error.user_message())),
    }
}

/// An item that waits in the outbox is only ever taken through legal transitions,
/// and ends up being sent: each state on its path may follow the one before it.
pub proof fn law_delivery_takes_legal_steps(state: OutboxState, attachments: int, i: int)
    requires
        state == OutboxState::Pending || state == OutboxState::Uploading || state
            == OutboxState::Retrying || state == OutboxState::Queued,
        0 <= i < delivery_path(state, attachments).len(),
    ensures
        delivery_path(state, attachments).last() == OutboxState::Sending,
        legal(
            if i == 0 {
                state
            } else {
                delivery_path(state, attachments)[i - 1]
            },
            delivery_path(state, attachments)[i],
        ),
{
}

/// How many of the events are answers of this kind.
pub open spec fn answers(events: Seq<PassEvent>, accepted: bool) -> int
    decreases events.len(),
{
    if events.len() == 0 {
        0
    } else if events.last() == PassEvent::Answered(accepted) {
        answers(events.drop_last(), accepted) + 1
    } else {
        answers(events.drop_last(), accepted)
    }
}

/// The summary of a pass counts what the server said: as many items are sent as it
/// accepted, and as many failed as it did not.
pub proof fn law_the_summary_counts_the_answers(events: Seq<PassEvent>)
    requires
        pass_after(events) is Some,
        events.len() <= usize::MAX,
    ensures
        pass_after(events)->0.summary.sent == answers(events, true),
        pass_after(events)->0.summary.failed == answers(events, false),
        answers(events, true) + answers(events, false) <= events.len(),
        pass_after(events)->0.history.len() == events.len(),
    decreases events.len(),
{
    if events.len() > 0 {
        law_the_summary_counts_the_answers(events.drop_last());
        lemma_pass_orderly(events.drop_last());
    }
}

// -- JSON output -----------------------------------------------------------

/// An optional text in JSON.
pub open spec fn text_or_null(value: Option<Seq<char>>) -> JsonView {
    match value {
        Some(text) => JsonView::Text(text),
        None => JsonView::Null,
    }
}

/// An optional number in JSON.
pub open spec fn int_or_null(value: Option<int>) -> JsonView {
    match value {
        Some(n) => JsonView::Int(n),
        None => JsonView::Null,
    }
}

fn json_text(value: &Option<String>) -> (result: Json)
    ensures
        result@ == text_or_null(opt_view(*value)),
{
    match value {
        Some(text) => Json::Text(text.clone()),
        None => Json::Null,
    }
}

fn json_id(value: Option<i64>) -> (result: Json)
    ensures
        result@ == (match value {
            Some(n) => JsonView::Int(n as int),
            None => JsonView::Null,
        }),
{
    match value {
        Some(n) => Json::Int(n as i128),
        None => Json::Null,
    }
}

/// An account in JSON.
pub open spec fn account_view(account: Account) -> JsonView {
    JsonView::Object(
        seq![
            ("id"@, JsonView::Int(account.id.0 as int)),
            ("email"@, JsonView::Text(account.email@)),
            ("display_name"@, text_or_null(opt_view(account.display_name))),
            ("base_url"@, JsonView::Text(account.base_url@)),
            ("paused"@, JsonView::Bool(account.paused)),
            (
                "sync_window_days"@,
                int_or_null(
                    match account.sync_window_days {
                        Some(days) => Some(days as int),
                        None => None,
                    },
                ),
            ),
            (
                "cache_limit_bytes"@,
                int_or_null(
                    match account.cache_limit_bytes {
                        Some(bytes) => Some(bytes as int),
                        None => None,
                    },
                ),
            ),
            (
                "protocol_version"@,
                int_or_null(
                    match account.protocol_version {
                        Some(version) => Some(version as int),
                        None => None,
                    },
                ),
            ),
            ("server_version"@, text_or_null(opt_view(account.server_version))),
            (
                "last_sync_at"@,
                text_or_null(
                    match account.last_sync_at {
                        Some(time) => rfc3339_text(time),
                        None => None,
                    },
                ),
            ),
            ("last_error"@, text_or_null(opt_view(account.last_error))),
        ],
    )
}

/// Render an account as JSON. The refresh token is not part of it.
pub fn account_json(account: &Account) -> (result: Json)
    ensures
        result@ == account_view(*account),
{
    let last_sync_at = match account.last_sync_at {
        Some(time) => to_rfc3339(time),
        None => None,
    };
    let mut members = Members::new();
    members.put_int("id", account.id.0);
    members.put_text("email", account.email.as_str());
    members.put("display_name", json_text(&account.display_name));
    members.put_text("base_url", account.base_url.as_str());
    members.put("paused", Json::Bool(account.paused));
    members.put(
        "sync_window_days",
        match account.sync_window_days {
            Some(days) => Json::Int(days as i128),
            None => Json::Null,
        },
    );
    members.put(
        "cache_limit_bytes",
        match account.cache_limit_bytes {
            Some(bytes) => Json::Int(bytes as i128),
            None => Json::Null,
        },
    );
    members.put(
        "protocol_version",
        match account.protocol_version {
            Some(version) => Json::Int(version as i128),
            None => Json::Null,
        },
    );
    members.put("server_version", json_text(&account.server_version));
    members.put("last_sync_at", json_text(&last_sync_at));
    members.put("last_error", json_text(&account.last_error));
    let ghost built = members@;
    let result = members.finish();
    assert(JsonView::Object(built) == account_view(*account)) by {
        assert(account_view(*account) matches JsonView::Object(list) && built =~= list);
    }
    result
}

/// A cached message, as the list and the reader show it.
#[derive(Debug, Clone, PartialEq, Eq)]
pub struct MessageView {
    /// The account.
    pub account_id: AccountId,
    /// The server-side message id.
    pub id: i64,
    /// The folder, when it is known.
    pub folder_id: Option<i64>,
    /// The subject.
    pub subject: String,
    /// The sender address.
    pub from_address: String,
    /// The sender name.
    pub from_name: Option<String>,
    /// The recipients, as one line.
    pub to_summary: Option<String>,
    /// A short plain-text preview.
    pub snippet: Option<String>,
    /// Space separated IMAP flags.
    pub flags: String,
    /// When the server received it, as an RFC 3339 string.
    pub internal_date: Option<String>,
    /// Whether it has attachments.
    pub has_attachments: bool,
    /// How many attachments it has.
    pub attachment_count: i64,
    /// Whether the body is cached.
    pub body_state: String,
    /// The plain-text body.
    pub text_body: Option<String>,
    /// The HTML body.
    pub html_body: Option<String>,
}

impl MessageView {
    /// Whether the flags name `flag`, whatever the case of their letters.
    pub open spec fn flagged_as(&self, flag: Seq<char>) -> bool {
        holds(lowered(self.flags@), flag)
    }

    /// Whether the message has been read: it carries the `seen` flag.
    pub fn is_read(&self) -> (result: bool)
        ensures
            result == self.flagged_as("seen"@),
    {
        contains(to_lower(self.flags.as_str()).as_str(), "seen")
    }

    /// Whether the message carries the `flagged` flag.
    pub fn is_flagged(&self) -> (result: bool)
        ensures
            result == self.flagged_as("flagged"@),
    {
        contains(to_lower(self.flags.as_str()).as_str(), "flagged")
    }
}

/// A message in JSON.
pub open spec fn message_view(message: MessageView) -> JsonView {
    JsonView::Object(
        seq![
            ("id"@, JsonView::Int(message.id as int)),
            (
                "folder_id"@,
                int_or_null(
                    match message.folder_id {
                        Some(id) => Some(id as int),
                        None => None,
                    },
                ),
            ),
            ("subject"@, JsonView::Text(message.subject@)),
            ("from"@, JsonView::Text(message.from_address@)),
            ("from_name"@, text_or_null(opt_view(message.from_name))),
            ("to"@, text_or_null(opt_view(message.to_summary))),
            ("snippet"@, text_or_null(opt_view(message.snippet))),
            ("flags"@, JsonView::Text(message.flags@)),
            ("internal_date"@, text_or_null(opt_view(message.internal_date))),
            ("has_attachments"@, JsonView::Bool(message.has_attachments)),
            ("attachment_count"@, JsonView::Int(message.attachment_count as int)),
            ("body_state"@, JsonView::Text(message.body_state@)),
            ("read"@, JsonView::Bool(message.flagged_as("seen"@))),
            ("flagged"@, JsonView::Bool(message.flagged_as("flagged"@))),
        ],
    )
}

/// Render a message as JSON, without its bodies.
pub fn message_json(message: &MessageView) -> (result: Json)
    ensures
        result@ == message_view(*message),
{
    let mut members = Members::new();
    members.put_int("id", message.id);
    members.put("folder_id", json_id(message.folder_id));
    members.put_text("subject", message.subject.as_str());
    members.put_text("from", message.from_address.as_str());
    members.put("from_name", json_text(&message.from_name));
    members.put("to", json_text(&message.to_summary));
    members.put("snippet", json_text(&message.snippet));
    members.put_text("flags", message.flags.as_str());
    members.put("internal_date", json_text(&message.internal_date));
    members.put("has_attachments", Json::Bool(message.has_attachments));
    members.put_int("attachment_count", message.attachment_count);
    members.put_text("body_state", message.body_state.as_str());
    members.put("read", Json::Bool(message.is_read()));
    members.put("flagged", Json::Bool(message.is_flagged()));
    let ghost built = members@;
    let result = members.finish();
    assert(JsonView::Object(built) == message_view(*message)) by {
        assert(message_view(*message) matches JsonView::Object(list) && built =~= list);
    }
    result
}

/// A search hit in JSON.
pub open spec fn hit_view(hit: SearchHit) -> JsonView {
    JsonView::Object(
        seq![
            ("message_id"@, JsonView::Int(hit.message_id as int)),
            (
                "folder_id"@,
                int_or_null(
                    match hit.folder_id {
                        Some(id) => Some(id as int),
                        None => None,
                    },
                ),
            ),
            ("subject"@, JsonView::Text(hit.subject@)),
            ("from"@, JsonView::Text(hit.from_address@)),
            ("flags"@, JsonView::Text(hit.flags@)),
            ("internal_date"@, text_or_null(opt_view(hit.internal_date))),
        ],
    )
}

/// Render a search hit as JSON.
pub fn hit_json(hit: &SearchHit) -> (result: Json)
    ensures
        result@ == hit_view(*hit),
{
    let mut members = Members::new();
    members.put_int("message_id", hit.message_id);
    members.put("folder_id", json_id(hit.folder_id));
    members.put_text("subject", hit.subject.as_str());
    members.put_text("from", hit.from_address.as_str());
    members.put_text("flags", hit.flags.as_str());
    members.put("internal_date", json_text(&hit.internal_date));
    let ghost built = members@;
    let result = members.finish();
    assert(JsonView::Object(built) == hit_view(*hit)) by {
        assert(hit_view(*hit) matches JsonView::Object(list) && built =~= list);
    }
    result
}

/// The answer to a search in JSON.
pub open spec fn results_view(results: SearchResults) -> JsonView {
    JsonView::Object(
        seq![
            (
                "source"@,
                JsonView::Text(
                    match results.source {
                        SearchSource::Local => "local"@,
                        SearchSource::Server => "server"@,
                    },
                ),
            ),
            ("total"@, JsonView::Int(results.total as int)),
            ("hits"@, JsonView::Array(results.hits@.map_values(|hit: SearchHit| hit_view(hit)))),
        ],
    )
}

/// Render the answer to a search as JSON.
pub fn results_json(results: &SearchResults) -> (result: Json)
    ensures
        result@ == results_view(*results),
{
    let mut hits: Vec<Json> = Vec::new();
    let mut i: usize = 0;
    while i < results.hits.len()
        invariant
            i <= results.hits@.len(),
            hits@.len() == i,
            forall|j: int| 0 <= j < i ==> (#[trigger] hits@[j])@ == hit_view(results.hits@[j]),
        decreases results.hits@.len() - i,
    {
        hits.push(hit_json(&results.hits[i]));
        i = i + 1;
    }
    proof {
        lemma_items_view(hits@);
        assert(items_view(hits@) =~= results.hits@.map_values(|hit: SearchHit| hit_view(hit)));
    }
    let source = match results.source {
        SearchSource::Local => "local",
        SearchSource::Server => "server",
    };
    let mut members = Members::new();
    members.put_text("source", source);
    members.put_int("total", results.total);
    members.put("hits", Json::Array(hits));
    let ghost built = members@;
    let result = members.finish();
    assert(JsonView::Object(built) == results_view(*results)) by {
        assert(results_view(*results) matches JsonView::Object(list) && built =~= list);
    }
    result
}

/// An outbox item in JSON.
pub open spec fn item_view(item: OutboxItem) -> JsonView {
    JsonView::Object(
        seq![
            ("id"@, JsonView::Int(item.id as int)),
            ("state"@, JsonView::Text(state_name(item.state))),
            ("subject"@, JsonView::Text(item.subject@)),
            ("to"@, texts_view(item.to@)),
            ("attempts"@, JsonView::Int(item.attempts as int)),
            ("last_error"@, text_or_null(opt_view(item.last_error))),
        ],
    )
}

/// Render an outbox item as JSON.
pub fn item_json(item: &OutboxItem) -> (result: Json)
    ensures
        result@ == item_view(*item),
{
    let mut members = Members::new();
    members.put_int("id", item.id);
    members.put_text("state", item.state.as_str());
    members.put_text("subject", item.subject.as_str());
    members.put("to", json_texts(&item.to));
    members.put("attempts", Json::Int(item.attempts as i128));
    members.put("last_error", json_text(&item.last_error));
    let ghost built = members@;
    let result = members.finish();
    assert(JsonView::Object(built) == item_view(*item)) by {
        assert(item_view(*item) matches JsonView::Object(list) && built =~= list);
    }
    result
}

/// The outbox in JSON: the counts, the summary line and the items.
pub open spec fn outbox_view(counts: OutboxCounts, items: Seq<OutboxItem>) -> JsonView {
    JsonView::Object(
        seq![
            ("draft"@, JsonView::Int(counts.draft as int)),
            ("pending"@, JsonView::Int(counts.pending as int)),
            ("uploading"@, JsonView::Int(counts.uploading as int)),
            ("queued"@, JsonView::Int(counts.queued as int)),
            ("sending"@, JsonView::Int(counts.sending as int)),
            ("sent"@, JsonView::Int(counts.sent as int)),
            ("failed"@, JsonView::Int(counts.failed as int)),
            ("retrying"@, JsonView::Int(counts.retrying as int)),
            (
                "summary"@,
                JsonView::Text(
                    "sending "@ + signed_digits(counts.on_its_way()) + ", failed "@
                        + signed_digits(counts.failed as int) + ", sent "@ + signed_digits(
                        counts.sent as int,
                    ),
                ),
            ),
            ("items"@, JsonView::Array(items.map_values(|item: OutboxItem| item_view(item)))),
        ],
    )
}

/// Render the outbox as JSON.
pub fn outbox_json(counts: &OutboxCounts, items: &Vec<OutboxItem>) -> (result: Json)
    requires
        i64::MIN <= counts.on_its_way() <= i64::MAX,
    ensures
        result@ == outbox_view(*counts, items@),
{
    let mut rows: Vec<Json> = Vec::new();
    let mut i: usize = 0;
    while i < items.len()
        invariant
            i <= items@.len(),
            rows@.len() == i,
            forall|j: int| 0 <= j < i ==> (#[trigger] rows@[j])@ == item_view(items@[j]),
        decreases items@.len() - i,
    {
        rows.push(item_json(&items[i]));
        i = i + 1;
    }
    proof {
        lemma_items_view(rows@);
        assert(items_view(rows@) =~= items@.map_values(|item: OutboxItem| item_view(item)));
    }
    let mut members = Members::new();
    members.put_int("draft", counts.draft);
    members.put_int("pending", counts.pending);
    members.put_int("uploading", counts.uploading);
    members.put_int("queued", counts.queued);
    members.put_int("sending", counts.sending);
    members.put_int("sent", counts.sent);
    members.put_int("failed", counts.failed);
    members.put_int("retrying", counts.retrying);
    members.put_text("summary", counts.summary().as_str());
    members.put("items", Json::Array(rows));
    let ghost built = members@;
    let result = members.finish();
    assert(JsonView::Object(built) == outbox_view(*counts, items@)) by {
        assert(outbox_view(*counts, items@) matches JsonView::Object(list) && built =~= list);
    }
    result
}

/// A device in JSON.
pub open spec fn device_record_view(device: DeviceRecord) -> JsonView {
    JsonView::Object(
        seq![
            ("id"@, JsonView::Int(device.id as int)),
            ("device_uid"@, JsonView::Text(device.device_uid@)),
            ("name"@, text_or_null(opt_view(device.name))),
            ("platform"@, text_or_null(opt_view(device.platform))),
            ("client_version"@, text_or_null(opt_view(device.client_version))),
            ("last_seen_at"@, text_or_null(opt_view(device.last_seen_at))),
            ("last_ip"@, text_or_null(opt_view(device.last_ip))),
            ("revoked"@, JsonView::Bool(device.revoked)),
        ],
    )
}

/// Render a device as JSON.
pub fn device_json(device: &DeviceRecord) -> (result: Json)
    ensures
        result@ == device_record_view(*device),
{
    let mut members = Members::new();
    members.put_int("id", device.id);
    members.put_text("device_uid", device.device_uid.as_str());
    members.put("name", json_text(&device.name));
    members.put("platform", json_text(&device.platform));
    members.put("client_version", json_text(&device.client_version));
    members.put("last_seen_at", json_text(&device.last_seen_at));
    members.put("last_ip", json_text(&device.last_ip));
    members.put("revoked", Json::Bool(device.revoked));
    let ghost built = members@;
    let result = members.finish();
    assert(JsonView::Object(built) == device_record_view(*device)) by {
        assert(device_record_view(*device) matches JsonView::Object(list) && built =~= list);
    }
    result
}

/// What is shown of an account is what is stored: each field under its own name.
pub proof fn law_an_account_shows_its_fields(account: Account)
    ensures
        account_view(account).member("id"@) == Some(JsonView::Int(account.id.0 as int)),
        account_view(account).member("email"@) == Some(JsonView::Text(account.email@)),
        account_view(account).member("display_name"@) == Some(text_or_null(opt_view(account.display_name))),
        account_view(account).member("base_url"@) == Some(JsonView::Text(account.base_url@)),
        account_view(account).member("paused"@) == Some(JsonView::Bool(account.paused)),
        account_view(account).member("sync_window_days"@) == Some((match account.sync_window_days {
            Some(n) => JsonView::Int(n as int),
            None => JsonView::Null,
        })),
        account_view(account).member("cache_limit_bytes"@) == Some((match account.cache_limit_bytes {
            Some(n) => JsonView::Int(n as int),
            None => JsonView::Null,
        })),
        account_view(account).member("protocol_version"@) == Some((match account.protocol_version {
            Some(n) => JsonView::Int(n as int),
            None => JsonView::Null,
        })),
        account_view(account).member("server_version"@) == Some(text_or_null(opt_view(account.server_version))),
        account_view(account).member("last_sync_at"@) == Some(text_or_null(match account.last_sync_at {
            Some(time) => rfc3339_text(time),
            None => None,
        })),
        account_view(account).member("last_error"@) == Some(text_or_null(opt_view(account.last_error))),
{
    reveal_strlit("id");
    reveal_strlit("email");
    reveal_strlit("display_name");
    reveal_strlit("base_url");
    reveal_strlit("paused");
    reveal_strlit("sync_window_days");
    reveal_strlit("cache_limit_bytes");
    reveal_strlit("protocol_version");
    reveal_strlit("server_version");
    reveal_strlit("last_sync_at");
    reveal_strlit("last_error");
    assert("id"@.len() == 2 && "email"@.len() == 5 && "display_name"@.len() == 12);
    assert("base_url"@.len() == 8 && "paused"@.len() == 6 && "sync_window_days"@.len() == 16);
    assert("cache_limit_bytes"@.len() == 17 && "protocol_version"@.len() == 16 && "server_version"@.len() == 14);
    assert("last_sync_at"@.len() == 12 && "last_error"@.len() == 10);
    assert("display_name"@[0] == 'd');
    assert("last_sync_at"@[0] == 'l');
    assert("sync_window_days"@[0] == 's');
    assert("protocol_version"@[0] == 'p');
    let m0 = Seq::<(Seq<char>, JsonView)>::empty();
    let f0 = ("id"@, JsonView::Int(account.id.0 as int));
    lemma_members_pushed(m0, f0.0, f0.1);
    let m1 = m0.push(f0);
    let f1 = ("email"@, JsonView::Text(account.email@));
    lemma_members_pushed(m1, f1.0, f1.1);
    let m2 = m1.push(f1);
    let f2 = ("display_name"@, text_or_null(opt_view(account.display_name)));
    lemma_members_pushed(m2, f2.0, f2.1);
    let m3 = m2.push(f2);
    let f3 = ("base_url"@, JsonView::Text(account.base_url@));
    lemma_members_pushed(m3, f3.0, f3.1);
    let m4 = m3.push(f3);
    let f4 = ("paused"@, JsonView::Bool(account.paused));
    lemma_members_pushed(m4, f4.0, f4.1);
    let m5 = m4.push(f4);
    let f5 = ("sync_window_days"@, (match account.sync_window_days {
            Some(n) => JsonView::Int(n as int),
            None => JsonView::Null,
        }));
    lemma_members_pushed(m5, f5.0, f5.1);
    let m6 = m5.push(f5);
    let f6 = ("cache_limit_bytes"@, (match account.cache_limit_bytes {
            Some(n) => JsonView::Int(n as int),
            None => JsonView::Null,
        }));
    lemma_members_pushed(m6, f6.0, f6.1);
    let m7 = m6.push(f6);
    let f7 = ("protocol_version"@, (match account.protocol_version {
            Some(n) => JsonView::Int(n as int),
            None => JsonView::Null,
        }));
    lemma_members_pushed(m7, f7.0, f7.1);
    let m8 = m7.push(f7);
    let f8 = ("server_version"@, text_or_null(opt_view(account.server_version)));
    lemma_members_pushed(m8, f8.0, f8.1);
    let m9 = m8.push(f8);
    let f9 = ("last_sync_at"@, text_or_null(match account.last_sync_at {
            Some(time) => rfc3339_text(time),
            None => None,
        }));
    lemma_members_pushed(m9, f9.0, f9.1);
    let m10 = m9.push(f9);
    let f10 = ("last_error"@, text_or_null(opt_view(account.last_error)));
    lemma_members_pushed(m10, f10.0, f10.1);
    let m11 = m10.push(f10);
    assert(account_view(account)->Object_0 =~= m11);
}

/// What is shown of a message is what is stored: each field under its own name, with whether it was
/// read and whether it is flagged as its flags say.
pub proof fn law_a_message_shows_its_fields(message: MessageView)
    ensures
        message_view(message).member("id"@) == Some(JsonView::Int(message.id as int)),
        message_view(message).member("folder_id"@) == Some((match message.folder_id {
            Some(n) => JsonView::Int(n as int),
            None => JsonView::Null,
        })),
        message_view(message).member("subject"@) == Some(JsonView::Text(message.subject@)),
        message_view(message).member("from"@) == Some(JsonView::Text(message.from_address@)),
        message_view(message).member("from_name"@) == Some(text_or_null(opt_view(message.from_name))),
        message_view(message).member("to"@) == Some(text_or_null(opt_view(message.to_summary))),
        message_view(message).member("snippet"@) == Some(text_or_null(opt_view(message.snippet))),
        message_view(message).member("flags"@) == Some(JsonView::Text(message.flags@)),
        message_view(message).member("internal_date"@) == Some(text_or_null(opt_view(message.internal_date))),
        message_view(message).member("has_attachments"@) == Some(JsonView::Bool(message.has_attachments)),
        message_view(message).member("attachment_count"@) == Some(JsonView::Int(message.attachment_count as int)),
        message_view(message).member("body_state"@) == Some(JsonView::Text(message.body_state@)),
        message_view(message).member("read"@) == Some(JsonView::Bool(holds(lowered(message.flags@), "seen"@))),
        message_view(message).member("flagged"@) == Some(JsonView::Bool(holds(lowered(message.flags@), "flagged"@))),
{
    reveal_strlit("id");
    reveal_strlit("folder_id");
    reveal_strlit("subject");
    reveal_strlit("from");
    reveal_strlit("from_name");
    reveal_strlit("to");
    reveal_strlit("snippet");
    reveal_strlit("flags");
    reveal_strlit("internal_date");
    reveal_strlit("has_attachments");
    reveal_strlit("attachment_count");
    reveal_strlit("body_state");
    reveal_strlit("read");
    reveal_strlit("flagged");
    assert("id"@.len() == 2 && "folder_id"@.len() == 9 && "subject"@.len() == 7);
    assert("from"@.len() == 4 && "from_name"@.len() == 9 && "to"@.len() == 2);
    assert("snippet"@.len() == 7 && "flags"@.len() == 5 && "internal_date"@.len() == 13);
    assert("has_attachments"@.len() == 15 && "attachment_count"@.len() == 16 && "body_state"@.len() == 10);
    assert("read"@.len() == 4 && "flagged"@.len() == 7);
    assert("id"@[0] == 'i');
    assert("to"@[0] == 't');
    assert("folder_id"@[1] == 'o');
    assert("from_name"@[1] == 'r');
    assert("subject"@[1] == 'u');
    assert("snippet"@[1] == 'n');
    assert("flagged"@[1] == 'l');
    assert("from"@[0] == 'f');
    assert("read"@[0] == 'r');
    let m0 = Seq::<(Seq<char>, JsonView)>::empty();
    let f0 = ("id"@, JsonView::Int(message.id as int));
    lemma_members_pushed(m0, f0.0, f0.1);
    let m1 = m0.push(f0);
    let f1 = ("folder_id"@, (match message.folder_id {
            Some(n) => JsonView::Int(n as int),
            None => JsonView::Null,
        }));
    lemma_members_pushed(m1, f1.0, f1.1);
    let m2 = m1.push(f1);
    let f2 = ("subject"@, JsonView::Text(message.subject@));
    lemma_members_pushed(m2, f2.0, f2.1);
    let m3 = m2.push(f2);
    let f3 = ("from"@, JsonView::Text(message.from_address@));
    lemma_members_pushed(m3, f3.0, f3.1);
    let m4 = m3.push(f3);
    let f4 = ("from_name"@, text_or_null(opt_view(message.from_name)));
    lemma_members_pushed(m4, f4.0, f4.1);
    let m5 = m4.push(f4);
    let f5 = ("to"@, text_or_null(opt_view(message.to_summary)));
    lemma_members_pushed(m5, f5.0, f5.1);
    let m6 = m5.push(f5);
    let f6 = ("snippet"@, text_or_null(opt_view(message.snippet)));
    lemma_members_pushed(m6, f6.0, f6.1);
    let m7 = m6.push(f6);
    let f7 = ("flags"@, JsonView::Text(message.flags@));
    lemma_members_pushed(m7, f7.0, f7.1);
    let m8 = m7.push(f7);
    let f8 = ("internal_date"@, text_or_null(opt_view(message.internal_date)));
    lemma_members_pushed(m8, f8.0, f8.1);
    let m9 = m8.push(f8);
    let f9 = ("has_attachments"@, JsonView::Bool(message.has_attachments));
    lemma_members_pushed(m9, f9.0, f9.1);
    let m10 = m9.push(f9);
    let f10 = ("attachment_count"@, JsonView::Int(message.attachment_count as int));
    lemma_members_pushed(m10, f10.0, f10.1);
    let m11 = m10.push(f10);
    let f11 = ("body_state"@, JsonView::Text(message.body_state@));
    lemma_members_pushed(m11, f11.0, f11.1);
    let m12 = m11.push(f11);
    let f12 = ("read"@, JsonView::Bool(holds(lowered(message.flags@), "seen"@)));
    lemma_members_pushed(m12, f12.0, f12.1);
    let m13 = m12.push(f12);
    let f13 = ("flagged"@, JsonView::Bool(holds(lowered(message.flags@), "flagged"@)));
    lemma_members_pushed(m13, f13.0, f13.1);
    let m14 = m13.push(f13);
    assert(message_view(message)->Object_0 =~= m14);
}

/// What is shown of a search hit is what was found: each field under its own name.
pub proof fn law_a_hit_shows_its_fields(hit: SearchHit)
    ensures
        hit_view(hit).member("message_id"@) == Some(JsonView::Int(hit.message_id as int)),
        hit_view(hit).member("folder_id"@) == Some((match hit.folder_id {
            Some(n) => JsonView::Int(n as int),
            None => JsonView::Null,
        })),
        hit_view(hit).member("subject"@) == Some(JsonView::Text(hit.subject@)),
        hit_view(hit).member("from"@) == Some(JsonView::Text(hit.from_address@)),
        hit_view(hit).member("flags"@) == Some(JsonView::Text(hit.flags@)),
        hit_view(hit).member("internal_date"@) == Some(text_or_null(opt_view(hit.internal_date))),
{
    reveal_strlit("message_id");
    reveal_strlit("folder_id");
    reveal_strlit("subject");
    reveal_strlit("from");
    reveal_strlit("flags");
    reveal_strlit("internal_date");
    assert("message_id"@.len() == 10 && "folder_id"@.len() == 9 && "subject"@.len() == 7);
    assert("from"@.len() == 4 && "flags"@.len() == 5 && "internal_date"@.len() == 13);
    let m0 = Seq::<(Seq<char>, JsonView)>::empty();
    let f0 = ("message_id"@, JsonView::Int(hit.message_id as int));
    lemma_members_pushed(m0, f0.0, f0.1);
    let m1 = m0.push(f0);
    let f1 = ("folder_id"@, (match hit.folder_id {
            Some(n) => JsonView::Int(n as int),
            None => JsonView::Null,
        }));
    lemma_members_pushed(m1, f1.0, f1.1);
    let m2 = m1.push(f1);
    let f2 = ("subject"@, JsonView::Text(hit.subject@));
    lemma_members_pushed(m2, f2.0, f2.1);
    let m3 = m2.push(f2);
    let f3 = ("from"@, JsonView::Text(hit.from_address@));
    lemma_members_pushed(m3, f3.0, f3.1);
    let m4 = m3.push(f3);
    let f4 = ("flags"@, JsonView::Text(hit.flags@));
    lemma_members_pushed(m4, f4.0, f4.1);
    let m5 = m4.push(f4);
    let f5 = ("internal_date"@, text_or_null(opt_view(hit.internal_date)));
    lemma_members_pushed(m5, f5.0, f5.1);
    let m6 = m5.push(f5);
    assert(hit_view(hit)->Object_0 =~= m6);
}

/// What is shown of an outbox item is what is stored: each field under its own name.
pub proof fn law_an_item_shows_its_fields(item: OutboxItem)
    ensures
        item_view(item).member("id"@) == Some(JsonView::Int(item.id as int)),
        item_view(item).member("state"@) == Some(JsonView::Text(state_name(item.state))),
        item_view(item).member("subject"@) == Some(JsonView::Text(item.subject@)),
        item_view(item).member("to"@) == Some(texts_view(item.to@)),
        item_view(item).member("attempts"@) == Some(JsonView::Int(item.attempts as int)),
        item_view(item).member("last_error"@) == Some(text_or_null(opt_view(item.last_error))),
{
    reveal_strlit("id");
    reveal_strlit("state");
    reveal_strlit("subject");
    reveal_strlit("to");
    reveal_strlit("attempts");
    reveal_strlit("last_error");
    assert("id"@.len() == 2 && "state"@.len() == 5 && "subject"@.len() == 7);
    assert("to"@.len() == 2 && "attempts"@.len() == 8 && "last_error"@.len() == 10);
    assert("id"@[0] == 'i');
    assert("to"@[0] == 't');
    let m0 = Seq::<(Seq<char>, JsonView)>::empty();
    let f0 = ("id"@, JsonView::Int(item.id as int));
    lemma_members_pushed(m0, f0.0, f0.1);
    let m1 = m0.push(f0);
    let f1 = ("state"@, JsonView::Text(state_name(item.state)));
    lemma_members_pushed(m1, f1.0, f1.1);
    let m2 = m1.push(f1);
    let f2 = ("subject"@, JsonView::Text(item.subject@));
    lemma_members_pushed(m2, f2.0, f2.1);
    let m3 = m2.push(f2);
    let f3 = ("to"@, texts_view(item.to@));
    lemma_members_pushed(m3, f3.0, f3.1);
    let m4 = m3.push(f3);
    let f4 = ("attempts"@, JsonView::Int(item.attempts as int));
    lemma_members_pushed(m4, f4.0, f4.1);
    let m5 = m4.push(f4);
    let f5 = ("last_error"@, text_or_null(opt_view(item.last_error)));
    lemma_members_pushed(m5, f5.0, f5.1);
    let m6 = m5.push(f5);
    assert(item_view(item)->Object_0 =~= m6);
}

/// Each state of the outbox is counted under its own stored name, beside the items.
pub proof fn law_the_outbox_shows_each_state(counts: OutboxCounts, items: Seq<OutboxItem>, state: OutboxState)
    ensures
        outbox_view(counts, items).member(state_name(state)) == Some(JsonView::Int(counts.of(state) as int)),
        outbox_view(counts, items).member("items"@) matches Some(JsonView::Array(rows)) && rows.len()
            == items.len(),
{
    reveal_strlit("draft");
    reveal_strlit("pending");
    reveal_strlit("uploading");
    reveal_strlit("queued");
    reveal_strlit("sending");
    reveal_strlit("sent");
    reveal_strlit("failed");
    reveal_strlit("retrying");
    reveal_strlit("summary");
    reveal_strlit("items");
    assert("draft"@.len() == 5 && "pending"@.len() == 7 && "uploading"@.len() == 9);
    assert("queued"@.len() == 6 && "sending"@.len() == 7 && "sent"@.len() == 4);
    assert("failed"@.len() == 6 && "retrying"@.len() == 8 && "summary"@.len() == 7);
    assert("items"@.len() == 5);
    assert("draft"@[0] == 'd');
    assert("items"@[0] == 'i');
    assert("pending"@[0] == 'p' && "pending"@[1] == 'e');
    assert("sending"@[0] == 's' && "sending"@[1] == 'e');
    assert("summary"@[0] == 's' && "summary"@[1] == 'u');
    assert("queued"@[0] == 'q');
    assert("failed"@[0] == 'f');
    let m0 = Seq::<(Seq<char>, JsonView)>::empty();
    let f0 = ("draft"@, JsonView::Int(counts.draft as int));
    lemma_members_pushed(m0, f0.0, f0.1);
    let m1 = m0.push(f0);
    let f1 = ("pending"@, JsonView::Int(counts.pending as int));
    lemma_members_pushed(m1, f1.0, f1.1);
    let m2 = m1.push(f1);
    let f2 = ("uploading"@, JsonView::Int(counts.uploading as int));
    lemma_members_pushed(m2, f2.0, f2.1);
    let m3 = m2.push(f2);
    let f3 = ("queued"@, JsonView::Int(counts.queued as int));
    lemma_members_pushed(m3, f3.0, f3.1);
    let m4 = m3.push(f3);
    let f4 = ("sending"@, JsonView::Int(counts.sending as int));
    lemma_members_pushed(m4, f4.0, f4.1);
    let m5 = m4.push(f4);
    let f5 = ("sent"@, JsonView::Int(counts.sent as int));
    lemma_members_pushed(m5, f5.0, f5.1);
    let m6 = m5.push(f5);
    let f6 = ("failed"@, JsonView::Int(counts.failed as int));
    lemma_members_pushed(m6, f6.0, f6.1);
    let m7 = m6.push(f6);
    let f7 = ("retrying"@, JsonView::Int(counts.retrying as int));
    lemma_members_pushed(m7, f7.0, f7.1);
    let m8 = m7.push(f7);
    let f8 = ("summary"@, outbox_view(counts, items)->Object_0[8].1);
    lemma_members_pushed(m8, f8.0, f8.1);
    let m9 = m8.push(f8);
    let f9 = ("items"@, JsonView::Array(items.map_values(|item: OutboxItem| item_view(item))));
    lemma_members_pushed(m9, f9.0, f9.1);
    let m10 = m9.push(f9);
    assert(outbox_view(counts, items)->Object_0 =~= m10);
}

/// What is shown of a device is what the server said: each field under its own name.
pub proof fn law_a_device_shows_its_fields(device: DeviceRecord)
    ensures
        device_record_view(device).member("id"@) == Some(JsonView::Int(device.id as int)),
        device_record_view(device).member("device_uid"@) == Some(JsonView::Text(device.device_uid@)),
        device_record_view(device).member("name"@) == Some(text_or_null(opt_view(device.name))),
        device_record_view(device).member("platform"@) == Some(text_or_null(opt_view(device.platform))),
        device_record_view(device).member("client_version"@) == Some(text_or_null(opt_view(device.client_version))),
        device_record_view(device).member("last_seen_at"@) == Some(text_or_null(opt_view(device.last_seen_at))),
        device_record_view(device).member("last_ip"@) == Some(text_or_null(opt_view(device.last_ip))),
        device_record_view(device).member("revoked"@) == Some(JsonView::Bool(device.revoked)),
{
    reveal_strlit("id");
    reveal_strlit("device_uid");
    reveal_strlit("name");
    reveal_strlit("platform");
    reveal_strlit("client_version");
    reveal_strlit("last_seen_at");
    reveal_strlit("last_ip");
    reveal_strlit("revoked");
    assert("id"@.len() == 2 && "device_uid"@.len() == 10 && "name"@.len() == 4);
    assert("platform"@.len() == 8 && "client_version"@.len() == 14 && "last_seen_at"@.len() == 12);
    assert("last_ip"@.len() == 7 && "revoked"@.len() == 7);
    assert("last_ip"@[0] == 'l');
    assert("revoked"@[0] == 'r');
    let m0 = Seq::<(Seq<char>, JsonView)>::empty();
    let f0 = ("id"@, JsonView::Int(device.id as int));
    lemma_members_pushed(m0, f0.0, f0.1);
    let m1 = m0.push(f0);
    let f1 = ("device_uid"@, JsonView::Text(device.device_uid@));
    lemma_members_pushed(m1, f1.0, f1.1);
    let m2 = m1.push(f1);
    let f2 = ("name"@, text_or_null(opt_view(device.name)));
    lemma_members_pushed(m2, f2.0, f2.1);
    let m3 = m2.push(f2);
    let f3 = ("platform"@, text_or_null(opt_view(device.platform)));
    lemma_members_pushed(m3, f3.0, f3.1);
    let m4 = m3.push(f3);
    let f4 = ("client_version"@, text_or_null(opt_view(device.client_version)));
    lemma_members_pushed(m4, f4.0, f4.1);
    let m5 = m4.push(f4);
    let f5 = ("last_seen_at"@, text_or_null(opt_view(device.last_seen_at)));
    lemma_members_pushed(m5, f5.0, f5.1);
    let m6 = m5.push(f5);
    let f6 = ("last_ip"@, text_or_null(opt_view(device.last_ip)));
    lemma_members_pushed(m6, f6.0, f6.1);
    let m7 = m6.push(f6);
    let f7 = ("revoked"@, JsonView::Bool(device.revoked));
    lemma_members_pushed(m7, f7.0, f7.1);
    let m8 = m7.push(f7);
    assert(device_record_view(device)->Object_0 =~= m8);
}

/// The answer to a search is shown with where it came from, how many there are in all, and its
/// hits in their order.
pub proof fn law_results_show_their_hits(results: SearchResults, i: int)
    ensures
        ({
            let shown = results_view(results);
            &&& shown.member("source"@) == Some(
                JsonView::Text(
                    if results.source is Server {
                        "server"@
                    } else {
                        "local"@
                    },
                ),
            )
            &&& shown.member("total"@) == Some(JsonView::Int(results.total as int))
            &&& shown.member("hits"@) matches Some(JsonView::Array(hits)) && hits.len()
                == results.hits@.len() && (0 <= i < hits.len() ==> hits[i] == hit_view(
                results.hits@[i],
            ))
        }),
{
    reveal_strlit("source");
    reveal_strlit("total");
    reveal_strlit("hits");
    assert("source"@.len() == 6 && "total"@.len() == 5 && "hits"@.len() == 4);
    let all = results_view(results)->Object_0;
    let none = Seq::<(Seq<char>, JsonView)>::empty();
    lemma_members_pushed(none, all[0].0, all[0].1);
    lemma_members_pushed(none.push(all[0]), all[1].0, all[1].1);
    lemma_members_pushed(none.push(all[0]).push(all[1]), all[2].0, all[2].1);
    assert(all =~= none.push(all[0]).push(all[1]).push(all[2]));
}

// -- text output -----------------------------------------------------------

/// Whether an account syncs, in a word.
pub open spec fn account_word(paused: bool) -> Seq<char> {
    if paused {
        "paused"@
    } else {
        "active"@
    }
}

fn word(paused: bool) -> (result: &'static str)
    ensures
        result@ == account_word(paused),
{
    if paused {
        "paused"
    } else {
        "active"
    }
}

/// The line about an account that was added.
pub fn added_line(account: &Account) -> (result: String)
    ensures
        result@ == "added account "@ + signed_digits(account.id.0 as int) + " <"@ + account.email@
            + "> at "@ + account.base_url@,
{
    let mut out = concat3("added account ", account.id.to_string().as_str(), " <");
    out.append(account.email.as_str());
    out.append("> at ");
    out.append(account.base_url.as_str());
    out
}

/// The line about an account that was paused or resumed.
pub fn paused_line(account: &Account) -> (result: String)
    ensures
        result@ == "account "@ + signed_digits(account.id.0 as int) + " is now "@ + account_word(
            account.paused,
        ),
{
    let mut out = concat3("account ", account.id.to_string().as_str(), " is now ");
    out.append(word(account.paused));
    out
}

/// The line of the account list.
pub fn account_line(account: &Account) -> (result: String)
    ensures
        result@ == signed_digits(account.id.0 as int) + "  "@ + padded_after(account.email@, 32)
            + " "@ + padded_after(account.base_url@, 40) + " "@ + account_word(account.paused),
{
    let mut out = concat3(
        account.id.to_string().as_str(),
        "  ",
        pad_after(account.email.as_str(), 32).as_str(),
    );
    out.append(" ");
    out.append(pad_after(account.base_url.as_str(), 40).as_str());
    out.append(" ");
    out.append(word(account.paused));
    out
}

/// The line about a synced account.
pub fn synced_line(email: &str, applied: u64, streams: u64) -> (result: String)
    ensures
        result@ == email@ + ": applied "@ + digits(applied as nat) + " change(s) across "@ + digits(
            streams as nat,
        ) + " stream(s)"@,
{
    let mut out = concat3(email, ": applied ", decimal(applied).as_str());
    out.append(" change(s) across ");
    out.append(decimal(streams).as_str());
    out.append(" stream(s)");
    out
}

/// The line of the message list; an unread message is starred.
pub fn message_line(message: &MessageView, label: &str) -> (result: String)
    ensures
        result@ == padded_before(signed_digits(message.id as int), 8) + "  "@
            + (match message.internal_date {
            Some(date) => date@,
            None => "-"@,
        }) + "  "@ + padded_after(cut(label@, 48), 48) + " "@ + (if message.flagged_as("seen"@) {
            ""@
        } else {
            "*"@
        }),
{
    let mut out = pad_before(decimal_signed(message.id).as_str(), 8);
    out.append("  ");
    match &message.internal_date {
        Some(date) => {
            out.append(date.as_str());
        },
        None => {
            out.append("-");
        },
    }
    out.append("  ");
    out.append(pad_after(truncate(label, 48).as_str(), 48).as_str());
    out.append(" ");
    out.append(
        if message.is_read() {
            ""
        } else {
            "*"
        },
    );
    out
}

/// The line of a search hit.
pub fn hit_line(hit: &SearchHit) -> (result: String)
    ensures
        result@ == padded_before(signed_digits(hit.message_id as int), 8) + "  "@ + padded_after(
            cut(hit.subject@, 40),
            40,
        ) + "  "@ + hit.from_address@,
{
    let mut out = pad_before(decimal_signed(hit.message_id).as_str(), 8);
    out.append("  ");
    out.append(pad_after(truncate(hit.subject.as_str(), 40).as_str(), 40).as_str());
    out.append("  ");
    out.append(hit.from_address.as_str());
    out
}

/// The line of an outbox item.
pub fn item_line(item: &OutboxItem) -> (result: String)
    ensures
        result@ == padded_before(signed_digits(item.id as int), 5) + "  "@ + state_name(item.state)
            + " "@ + padded_after(cut(item.subject@, 40), 40) + " "@ + joined(
            views(item.to@),
            ", "@,
        ),
{
    let mut out = pad_before(decimal_signed(item.id).as_str(), 5);
    out.append("  ");
    out.append(item.state.as_str());
    out.append(" ");
    out.append(pad_after(truncate(item.subject.as_str(), 40).as_str(), 40).as_str());
    out.append(" ");
    out.append(join(&item.to, ", ").as_str());
    out
}

/// The text, or the other one when there is none.
pub open spec fn text_or(value: Option<String>, other: Seq<char>) -> Seq<char> {
    match value {
        Some(text) => text@,
        None => other,
    }
}

fn or_text(value: &Option<String>, other: &str) -> (result: String)
    ensures
        result@ == text_or(*value, other@),
{
    match value {
        Some(text) => text.clone(),
        None => other.to_owned(),
    }
}

/// The line of a device.
pub fn device_line(device: &DeviceRecord) -> (result: String)
    ensures
        result@ == padded_before(signed_digits(device.id as int), 5) + "  "@ + padded_after(
            text_or(device.name, "(unnamed)"@),
            24,
        ) + " "@ + padded_after(text_or(device.platform, ""@), 10) + " "@ + padded_after(
            text_or(device.client_version, ""@),
            10,
        ) + " "@ + (if device.revoked {
            "revoked"@
        } else {
            "active"@
        }),
{
    let mut out = pad_before(decimal_signed(device.id).as_str(), 5);
    out.append("  ");
    out.append(pad_after(or_text(&device.name, "(unnamed)").as_str(), 24).as_str());
    out.append(" ");
    out.append(pad_after(or_text(&device.platform, "").as_str(), 10).as_str());
    out.append(" ");
    out.append(pad_after(or_text(&device.client_version, "").as_str(), 10).as_str());
    out.append(" ");
    out.append(
        if device.revoked {
            "revoked"
        } else {
            "active"
        },
    );
    out
}

/// The text of an opened message: its header lines, an empty line, and the body or
/// why there is none.
pub open spec fn message_text(message: MessageView, label: Seq<char>) -> Seq<char> {
    "From:    "@ + label + "\n"@ + (match message.to_summary {
        Some(to) => "To:      "@ + to@ + "\n"@,
        None => Seq::empty(),
    }) + (match message.internal_date {
        Some(date) => "Date:    "@ + date@ + "\n"@,
        None => Seq::empty(),
    }) + "Flags:   "@ + (if message.flags@.len() == 0 {
        "-"@
    } else {
        message.flags@
    }) + "\n\n"@ + (match message.text_body {
        Some(body) => body@,
        None => if message.html_body is Some {
            "(HTML only; use --json to get the markup)"@
        } else {
            "(body not cached)"@
        },
    })
}

/// An opened message begins with who sent it and ends with what it says: its text as it is, and
/// where there is none, why.
pub proof fn law_an_opened_message_shows_its_text(message: MessageView, label: Seq<char>)
    ensures
        ({
            let shown = message_text(message, label);
            &&& begins_with(shown, "From:    "@ + label + "\n"@)
            &&& message.text_body matches Some(body) ==> finishes_with(shown, "\n\n"@ + body@)
            &&& message.text_body is None && message.html_body is Some ==> finishes_with(
                shown,
                "(HTML only; use --json to get the markup)"@,
            )
            &&& message.text_body is None && message.html_body is None ==> finishes_with(
                shown,
                "(body not cached)"@,
            )
        }),
{
    let shown = message_text(message, label);
    let head = "From:    "@ + label + "\n"@;
    assert(shown.subrange(0, head.len() as int) =~= head);
    let tail = match message.text_body {
        Some(body) => "\n\n"@ + body@,
        None => if message.html_body is Some {
            "(HTML only; use --json to get the markup)"@
        } else {
            "(body not cached)"@
        },
    };
    assert(shown.subrange(shown.len() - tail.len(), shown.len() as int) =~= tail);
}

/// Show an opened message.
pub fn print_message(message: &MessageView, label: &str) -> (result: String)
    ensures
        result@ == message_text(*message, label@),
{
    let mut out = concat3("From:    ", label, "\n");
    let ghost first = out@;
    match &message.to_summary {
        Some(to) => {
            out.append(concat3("To:      ", to.as_str(), "\n").as_str());
        },
        None => {},
    }
    let ghost second = out@;
    proof {
        assert(second =~= first + (match message.to_summary {
            Some(to) => "To:      "@ + to@ + "\n"@,
            None => Seq::empty(),
        }));
    }
    match &message.internal_date {
        Some(date) => {
            out.append(concat3("Date:    ", date.as_str(), "\n").as_str());
        },
        None => {},
    }
    proof {
        assert(out@ =~= second + (match message.internal_date {
            Some(date) => "Date:    "@ + date@ + "\n"@,
            None => Seq::empty(),
        }));
    }
    out.append("Flags:   ");
    if message.flags.as_str().is_empty() {
        out.append("-");
    } else {
        out.append(message.flags.as_str());
    }
    out.append("\n\n");
    match &message.text_body {
        Some(body) => {
            out.append(body.as_str());
        },
        None => {
            if message.html_body.is_some() {
                out.append("(HTML only; use --json to get the markup)");
            } else {
                out.append("(body not cached)");
            }
        },
    }
    out
}

/// Selects the address that mail is sent from unless another is given; its one column
/// is called `address`.
pub const PRIMARY_ADDRESS: &'static str =
    "SELECT address FROM mailboxes WHERE account_id = ? ORDER BY is_primary DESC, id ASC LIMIT 1";

/// The statement that selects an account's primary address.
pub fn primary_address(account: AccountId) -> (result: Statement)
    ensures
        result.stands_for(PRIMARY_ADDRESS@, seq![BindView::Int(account.0 as int)]),
{
    Statement::new(PRIMARY_ADDRESS).bind(Bind::Int(account.0))
}

} // verus!
