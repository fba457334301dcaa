use vstd::prelude::*;
use crate::emv::card::constants::PPSE_FILE_NAME;
use crate::emv::card::image::{
    ApplicationDefinitionFile, ApplicationDefinitionFileModel, DirectoryDefinitionFile,
    DirectoryDefinitionFileModel, EmvCardImage, EmvCardImageModel, EmvTagModel,
};
use crate::emv::card::reader::apdu_exchanger::{
    EmvApduExchanger, Exchange, keeps_history, lemma_keeps_history_refl,
    lemma_calls_compose, channel_response_model,
};
use crate::emv::card::reader::application_definition_file_reader::{
    read_application_definition_file, spec_application_after_select,
    spec_application_session,
};
use crate::emv::card::reader::directory_definition_file_reader::{
    read_directory_definition_file, spec_directory_after,
    spec_select_directory_bytes,
};
use crate::emv::card::reader::error_mapper::{ErrorMapper, spec_from_reader_error};
use crate::smartcard::apdu::command::{CommandApdu, spec_command_bytes};
use crate::smartcard::apdu::response::ResponseApdu;
use crate::emv::card::reader::tag_lookup::{EmvTagLookup, spec_find_emv_tag};
use crate::emv::dictionary::TAG_4F;
use crate::smartcard::reader::{SmartCardChannel, SmartCardReader};
use crate::smartcard::reader::error::Error as ReaderError;

pub mod apdu_exchanger;
pub mod application_definition_file_reader;
pub mod directory_definition_file_reader;
pub mod error;
pub mod error_mapper;
pub mod tag_lookup;

verus! {

/// Puts the application `o`, when there is one, in front of `rest`.
pub open spec fn prepend_application(
    o: Option<ApplicationDefinitionFileModel>,
    rest: Seq<ApplicationDefinitionFileModel>,
) -> Seq<ApplicationDefinitionFileModel> {
    match o {
        Some(a) => seq![a] + rest,
        None => rest,
    }
}

/// Puts `prefix` in front of the applications of a successful outcome.
pub open spec fn applications_then(
    prefix: Seq<ApplicationDefinitionFileModel>,
    r: Option<Result<Seq<ApplicationDefinitionFileModel>, error::Error>>,
) -> Option<Result<Seq<ApplicationDefinitionFileModel>, error::Error>> {
    match r {
        Some(Ok(rest)) => Some(Ok(prefix + rest)),
        other => other,
    }
}

/// The outcome of reading, in order, the applications that the directory
/// `entries` name (tag 4F; an entry without one is passed over) when `log`
/// is the list of exchanges made for them; `None` when `log` is not such a
/// list. Reading stops at the first error.
pub open spec fn spec_read_all_applications(entries: Seq<Seq<EmvTagModel>>, log: Seq<Exchange>) -> Option<
    Result<Seq<ApplicationDefinitionFileModel>, error::Error>,
>
    decreases entries.len(),
{
    if entries.len() == 0 {
        if log.len() == 0 {
            Some(Ok(Seq::empty()))
        } else {
            None
        }
    } else {
        match spec_find_emv_tag(entries[0], TAG_4F) {
            None => spec_read_all_applications(entries.drop_first(), log),
            Some(aid) => if log.len() == 0 {
                None
            } else {
                let n: int = if spec_application_after_select(log[0].response) is Some {
                    1
                } else {
                    2
                };
                if n > log.len() {
                    None
                } else {
                match spec_application_session(aid, log.take(n)) {
                    None => None,
                    Some(Err(e)) => if log.len() == n {
                        Some(Err(e))
                    } else {
                        None
                    },
                    Some(Ok(o)) => match spec_read_all_applications(entries.drop_first(), log.skip(n)) {
                        Some(Ok(rest)) => Some(Ok(prepend_application(o, rest))),
                        other => other,
                    },
                }
                }
            },
        }
    }
}

/// The outcome of reading a card when `log` is the list of exchanges made
/// with it: SELECT of the PPSE, then the applications that its entries name;
/// `None` when `log` is not such a list.
pub open spec fn spec_read_card(log: Seq<Exchange>) -> Option<Result<EmvCardImageModel, error::Error>> {
    if log.len() == 0 || log[0].command != spec_select_directory_bytes(PPSE_FILE_NAME@) {
        None
    } else {
        match spec_directory_after(PPSE_FILE_NAME@, log[0].response) {
            Err(e) => if log.len() == 1 {
                Some(Err(e))
            } else {
                None
            },
            Ok(None) => if log.len() == 1 {
                Some(Ok(EmvCardImageModel { directories: Seq::empty(), applications: Seq::empty() }))
            } else {
                None
            },
            Ok(Some(d)) => match spec_read_all_applications(d.entries, log.skip(1)) {
                None => None,
                Some(Err(e)) => Some(Err(e)),
                Some(Ok(applications)) => Some(
                    Ok(EmvCardImageModel { directories: seq![d], applications }),
                ),
            },
        }
    }
}

/// The model of a list of applications read, or an error.
pub open spec fn adfs_result_model(r: Result<Vec<ApplicationDefinitionFile>, error::Error>) -> Result<
    Seq<ApplicationDefinitionFileModel>,
    error::Error,
> {
    match r {
        Ok(v) => Ok(v@.map_values(|a: ApplicationDefinitionFile| a@)),
        Err(e) => Err(e),
    }
}

/// The model of a card image read, or an error.
pub open spec fn card_result_model(r: Result<EmvCardImage, error::Error>) -> Result<
    EmvCardImageModel,
    error::Error,
> {
    match r {
        Ok(image) => Ok(image@),
        Err(e) => Err(e),
    }
}

proof fn lemma_read_all_append(
    a: Seq<Seq<EmvTagModel>>,
    b: Seq<Seq<EmvTagModel>>,
    l1: Seq<Exchange>,
    l2: Seq<Exchange>,
)
    requires
        spec_read_all_applications(a, l1) matches Some(Ok(_)),
    ensures
        spec_read_all_applications(a + b, l1 + l2) == applications_then(
            spec_read_all_applications(a, l1)->Some_0->Ok_0,
            spec_read_all_applications(b, l2),
        ),
    decreases a.len(),
{
    if a.len() == 0 {
        assert(a + b =~= b);
        assert(l1 + l2 =~= l2);
        if let Some(Ok(y)) = spec_read_all_applications(b, l2) {
            assert(Seq::<ApplicationDefinitionFileModel>::empty() + y =~= y);
        }
    } else {
        assert((a + b)[0] == a[0]);
        assert((a + b).drop_first() =~= a.drop_first() + b);
        match spec_find_emv_tag(a[0], TAG_4F) {
            None => {
                lemma_read_all_append(a.drop_first(), b, l1, l2);
            },
            Some(aid) => {
                assert((l1 + l2)[0] == l1[0]);
                let n: int = if spec_application_after_select(l1[0].response) is Some {
                    1
                } else {
                    2
                };
                assert((l1 + l2).take(n) =~= l1.take(n));
                assert((l1 + l2).skip(n) =~= l1.skip(n) + l2);
                let o = spec_application_session(aid, l1.take(n))->Some_0->Ok_0;
                lemma_read_all_append(a.drop_first(), b, l1.skip(n), l2);
                let rest1 = spec_read_all_applications(a.drop_first(), l1.skip(n))->Some_0->Ok_0;
                if let Some(Ok(y)) = spec_read_all_applications(b, l2) {
                    assert(prepend_application(o, rest1 + y) =~= prepend_application(o, rest1) + y);
                }
            },
        }
    }
}

proof fn lemma_read_all_prefix_err(a: Seq<Seq<EmvTagModel>>, b: Seq<Seq<EmvTagModel>>, l: Seq<Exchange>)
    requires
        spec_read_all_applications(a, l) matches Some(Err(_)),
    ensures
        spec_read_all_applications(a + b, l) == spec_read_all_applications(a, l),
    decreases a.len(),
{
    if a.len() > 0 {
        assert((a + b)[0] == a[0]);
        assert((a + b).drop_first() =~= a.drop_first() + b);
        match spec_find_emv_tag(a[0], TAG_4F) {
            None => {
                lemma_read_all_prefix_err(a.drop_first(), b, l);
            },
            Some(aid) => {
                let n: int = if spec_application_after_select(l[0].response) is Some {
                    1
                } else {
                    2
                };
                if let Some(Ok(o)) = spec_application_session(aid, l.take(n)) {
                    lemma_read_all_prefix_err(a.drop_first(), b, l.skip(n));
                }
            },
        }
    }
}

proof fn lemma_read_all_single_without_aid(e: Seq<EmvTagModel>)
    requires
        spec_find_emv_tag(e, TAG_4F) is None,
    ensures
        spec_read_all_applications(seq![e], Seq::empty()) == Some(
            Ok::<Seq<ApplicationDefinitionFileModel>, error::Error>(Seq::empty()),
        ),
{
    assert(seq![e].drop_first() =~= Seq::<Seq<EmvTagModel>>::empty());
    assert(spec_read_all_applications(Seq::empty(), Seq::empty()) == Some(
        Ok::<Seq<ApplicationDefinitionFileModel>, error::Error>(Seq::empty()),
    ));
}

proof fn lemma_read_all_single_with_aid(e: Seq<EmvTagModel>, aid: Seq<u8>, s: Seq<Exchange>)
    requires
        spec_find_emv_tag(e, TAG_4F) == Some(aid),
        spec_application_session(aid, s) is Some,
    ensures
        spec_read_all_applications(seq![e], s) == match spec_application_session(aid, s)->Some_0 {
            Err(x) => Some(Err(x)),
            Ok(o) => Some(Ok(prepend_application(o, Seq::empty()))),
        },
{
    reveal(spec_application_session);
    assert(seq![e].drop_first() =~= Seq::<Seq<EmvTagModel>>::empty());
    assert(s.take(s.len() as int) =~= s);
    assert(s.skip(s.len() as int) =~= Seq::<Exchange>::empty());
    assert(spec_read_all_applications(Seq::empty(), Seq::empty()) == Some(
        Ok::<Seq<ApplicationDefinitionFileModel>, error::Error>(Seq::empty()),
    ));
}

proof fn lemma_session_names_application(aid: Seq<u8>, log: Seq<Exchange>)
    ensures
        spec_application_session(aid, log) matches Some(Ok(Some(a))) ==> a.application_identifier
            == aid,
{
    reveal(spec_application_session);
    reveal(spec_application_after_select);
    reveal(
        crate::emv::card::reader::application_definition_file_reader::spec_application_after_gpo,
    );
}

proof fn lemma_read_all_named(entries: Seq<Seq<EmvTagModel>>, log: Seq<Exchange>)
    requires
        spec_read_all_applications(entries, log) matches Some(Ok(_)),
    ensures
        forall|k: int|
            0 <= k < spec_read_all_applications(entries, log)->Some_0->Ok_0.len() ==> exists|j: int|
                0 <= j < entries.len() && spec_find_emv_tag(entries[j], TAG_4F) == Some(
                    (#[trigger] spec_read_all_applications(entries, log)->Some_0->Ok_0[k]).application_identifier,
                ),
    decreases entries.len(),
{
    if entries.len() > 0 {
        let all = spec_read_all_applications(entries, log)->Some_0->Ok_0;
        match spec_find_emv_tag(entries[0], TAG_4F) {
            None => {
                lemma_read_all_named(entries.drop_first(), log);
                assert forall|k: int| 0 <= k < all.len() implies exists|j: int|
                    0 <= j < entries.len() && spec_find_emv_tag(entries[j], TAG_4F) == Some(
                        (#[trigger] all[k]).application_identifier,
                    ) by {
                    let j = choose|j: int|
                        0 <= j < entries.drop_first().len() && spec_find_emv_tag(
                            entries.drop_first()[j],
                            TAG_4F,
                        ) == Some(all[k].application_identifier);
                    assert(entries[j + 1] == entries.drop_first()[j]);
                }
            },
            Some(aid) => {
                let n: int = if spec_application_after_select(log[0].response) is Some {
                    1
                } else {
                    2
                };
                let o = spec_application_session(aid, log.take(n))->Some_0->Ok_0;
                lemma_session_names_application(aid, log.take(n));
                lemma_read_all_named(entries.drop_first(), log.skip(n));
                let rest = spec_read_all_applications(entries.drop_first(), log.skip(n))->Some_0->Ok_0;
                assert forall|k: int| 0 <= k < all.len() implies exists|j: int|
                    0 <= j < entries.len() && spec_find_emv_tag(entries[j], TAG_4F) == Some(
                        (#[trigger] all[k]).application_identifier,
                    ) by {
                    let kk = if o is Some {
                        k - 1
                    } else {
                        k
                    };
                    if o is Some && k == 0 {
                        assert(spec_find_emv_tag(entries[0], TAG_4F) == Some(all[k].application_identifier));
                    } else {
                        assert(all[k] == rest[kk]);
                        let j = choose|j: int|
                            0 <= j < entries.drop_first().len() && spec_find_emv_tag(
                                entries.drop_first()[j],
                                TAG_4F,
                            ) == Some(rest[kk].application_identifier);
                        assert(entries[j + 1] == entries.drop_first()[j]);
                    }
                }
            },
        }
    }
}

/// Law: a card image read holds at most one directory (the PPSE), and every
/// application in it is named (tag 4F) by an entry of that directory.
pub proof fn law_applications_named_by_directory(log: Seq<Exchange>)
    requires
        spec_read_card(log) matches Some(Ok(_)),
    ensures
        spec_read_card(log)->Some_0->Ok_0.directories.len() <= 1,
        forall|k: int|
            0 <= k < spec_read_card(log)->Some_0->Ok_0.applications.len() ==> {
                &&& spec_read_card(log)->Some_0->Ok_0.directories.len() == 1
                &&& exists|j: int|
                    0 <= j < spec_read_card(log)->Some_0->Ok_0.directories[0].entries.len()
                        && spec_find_emv_tag(
                        spec_read_card(log)->Some_0->Ok_0.directories[0].entries[j],
                        TAG_4F,
                    ) == Some(
                        (#[trigger] spec_read_card(log)->Some_0->Ok_0.applications[k]).application_identifier,
                    )
            },
{
    let image = spec_read_card(log)->Some_0->Ok_0;
    if let Ok(Some(d)) = spec_directory_after(PPSE_FILE_NAME@, log[0].response) {
        lemma_read_all_named(d.entries, log.skip(1));
        let all = spec_read_all_applications(d.entries, log.skip(1))->Some_0->Ok_0;
        assert(image.directories[0] == d);
        assert(image.applications == all);
        assert forall|k: int| 0 <= k < image.applications.len() implies exists|j: int|
            0 <= j < image.directories[0].entries.len() && spec_find_emv_tag(
                image.directories[0].entries[j],
                TAG_4F,
            ) == Some((#[trigger] image.applications[k]).application_identifier) by {
            assert(all[k] == image.applications[k]);
        }
    } else {
        assert(image.applications.len() == 0);
    }
}

/// Law: a card image read holds every application read for the directory:
/// its applications are exactly those that reading the applications of the
/// directory's entries gives, over the exchanges after the PPSE SELECT; with
/// no directory there is no application.
pub proof fn law_card_holds_every_application_read(log: Seq<Exchange>)
    requires
        spec_read_card(log) matches Some(Ok(_)),
    ensures
        ({
            let image = spec_read_card(log)->Some_0->Ok_0;
            &&& image.directories.len() == 1 ==> spec_read_all_applications(
                image.directories[0].entries,
                log.skip(1),
            ) == Some(Ok::<Seq<ApplicationDefinitionFileModel>, error::Error>(image.applications))
            &&& image.directories.len() == 0 ==> image.applications.len() == 0
        }),
{
}

/// Law: reading the applications of two runs of entries, over the exchanges
/// of the first followed by those of the second, gives the applications of
/// the first followed by the outcome of the second: none is dropped.
pub proof fn law_read_all_concat(
    a: Seq<Seq<EmvTagModel>>,
    b: Seq<Seq<EmvTagModel>>,
    l1: Seq<Exchange>,
    l2: Seq<Exchange>,
)
    requires
        spec_read_all_applications(a, l1) matches Some(Ok(_)),
    ensures
        spec_read_all_applications(a + b, l1 + l2) == match spec_read_all_applications(b, l2) {
            Some(Ok(rest)) => Some(
                Ok::<Seq<ApplicationDefinitionFileModel>, error::Error>(
                    spec_read_all_applications(a, l1)->Some_0->Ok_0 + rest,
                ),
            ),
            other => other,
        },
{
    lemma_read_all_append(a, b, l1, l2);
}

/// Law: an entry that names application `aid` (tag 4F), read over a session
/// that reads the application `a`, gives exactly that application; an entry
/// without a name gives none and takes no exchange.
pub proof fn law_read_all_single(
    e: Seq<EmvTagModel>,
    aid: Seq<u8>,
    s: Seq<Exchange>,
    a: ApplicationDefinitionFileModel,
)
    ensures
        spec_find_emv_tag(e, TAG_4F) == Some(aid) && spec_application_session(aid, s) == Some(
            Ok::<Option<ApplicationDefinitionFileModel>, error::Error>(Some(a)),
        ) ==> spec_read_all_applications(seq![e], s) == Some(
            Ok::<Seq<ApplicationDefinitionFileModel>, error::Error>(seq![a]),
        ),
        spec_find_emv_tag(e, TAG_4F) is None ==> spec_read_all_applications(seq![e], Seq::empty())
            == Some(Ok::<Seq<ApplicationDefinitionFileModel>, error::Error>(Seq::empty())),
{
    if spec_find_emv_tag(e, TAG_4F) == Some(aid) && spec_application_session(aid, s) is Some {
        lemma_read_all_single_with_aid(e, aid, s);
        assert(prepend_application(Some(a), Seq::empty()) =~= seq![a]);
    }
    if spec_find_emv_tag(e, TAG_4F) is None {
        lemma_read_all_single_without_aid(e);
    }
}

/// Reads, in order, the applications that the entries of `directory_definition_file`
/// name (tag 4F); stops at the first error.
pub fn read_all_application_definition_file<C: SmartCardChannel>(
    apdu_exchanger: &mut EmvApduExchanger<C>,
    directory_definition_file: &DirectoryDefinitionFile,
) -> (r: Result<Vec<ApplicationDefinitionFile>, error::Error>)
    ensures
        final(apdu_exchanger).transcript().len() >= old(apdu_exchanger).transcript().len(),
        final(apdu_exchanger).transcript().take(old(apdu_exchanger).transcript().len() as int)
            == old(apdu_exchanger).transcript(),
        spec_read_all_applications(
            directory_definition_file@.entries,
            final(apdu_exchanger).transcript().skip(old(apdu_exchanger).transcript().len() as int),
        ) == Some(adfs_result_model(r)),
        keeps_history(*old(apdu_exchanger), *final(apdu_exchanger)),
        final(apdu_exchanger).transcript().len() > old(apdu_exchanger).transcript().len()
            ==> final(apdu_exchanger).channel_at(old(apdu_exchanger).transcript().len() as int)
            == old(apdu_exchanger).channel(),
        final(apdu_exchanger).transcript().len() == old(apdu_exchanger).transcript().len()
            ==> *final(apdu_exchanger) == *old(apdu_exchanger),
        final(apdu_exchanger).chained(old(apdu_exchanger).transcript().len() as int),
        forall|i: int|
            #![trigger final(apdu_exchanger).in_run(old(apdu_exchanger).transcript().len() as int, i)]
            final(apdu_exchanger).in_run(old(apdu_exchanger).transcript().len() as int, i) ==> exists|
                channel: &mut C,
                command: CommandApdu,
                buffer: &mut [u8; 264],
                raw: Result<ResponseApdu, ReaderError>,
            |
            {
                &&& *channel == final(apdu_exchanger).channel_at(i)
                &&& spec_command_bytes(command) =~= final(apdu_exchanger).transcript()[i].command
                &&& #[trigger] call_ensures(C::exchange_apdu, (channel, command, buffer), raw)
                &&& final(apdu_exchanger).transcript()[i].response == channel_response_model(raw)
                &&& *final(channel) == final(apdu_exchanger).channel_after(i)
            },
{
    let ghost old_log = apdu_exchanger.transcript();
    let ghost start = old_log.len() as int;
    let ghost entries = directory_definition_file@.entries;
    let mut application_definition_file_vec: Vec<ApplicationDefinitionFile> = Vec::new();

    assert(apdu_exchanger.transcript().skip(start) =~= Seq::<Exchange>::empty());
    assert(entries.take(0) =~= Seq::<Seq<EmvTagModel>>::empty());
    assert(application_definition_file_vec@.map_values(|a: ApplicationDefinitionFile| a@)
        =~= Seq::<ApplicationDefinitionFileModel>::empty());
    proof {
        lemma_keeps_history_refl(*apdu_exchanger);
    }
    let mut i: usize = 0;
    while i < directory_definition_file.directory_entry_vec.len()
        invariant
            0 <= i <= directory_definition_file.directory_entry_vec@.len(),
            keeps_history(*old(apdu_exchanger), *apdu_exchanger),
            apdu_exchanger.transcript().len() > start ==> apdu_exchanger.channel_at(start)
                == old(apdu_exchanger).channel(),
            apdu_exchanger.transcript().len() == start ==> *apdu_exchanger == *old(apdu_exchanger),
            apdu_exchanger.chained(start),
            forall|i: int|
                #![trigger apdu_exchanger.in_run(start, i)]
                apdu_exchanger.in_run(start, i) ==> exists|
                    channel: &mut C,
                    command: CommandApdu,
                    buffer: &mut [u8; 264],
                    raw: Result<ResponseApdu, ReaderError>,
                |
                {
                    &&& *channel == apdu_exchanger.channel_at(i)
                    &&& spec_command_bytes(command) =~= apdu_exchanger.transcript()[i].command
                    &&& #[trigger] call_ensures(C::exchange_apdu, (channel, command, buffer), raw)
                    &&& apdu_exchanger.transcript()[i].response == channel_response_model(raw)
                    &&& *final(channel) == apdu_exchanger.channel_after(i)
                },
            entries == directory_definition_file@.entries,
            entries.len() == directory_definition_file.directory_entry_vec@.len(),
            start == old_log.len(),
            old_log == old(apdu_exchanger).transcript(),
            apdu_exchanger.transcript().len() >= start,
            apdu_exchanger.transcript().take(start) == old_log,
            spec_read_all_applications(
                entries.take(i as int),
                apdu_exchanger.transcript().skip(start),
            ) == Some(
                Ok::<Seq<ApplicationDefinitionFileModel>, error::Error>(
                    application_definition_file_vec@.map_values(|a: ApplicationDefinitionFile| a@),
                ),
            ),
        decreases directory_definition_file.directory_entry_vec@.len() - i,
    {
        let directory_entry = &directory_definition_file.directory_entry_vec[i];
        let ghost e = entries[i as int];
        assert(e == directory_entry@);
        assert(entries.take(i + 1) =~= entries.take(i as int) + seq![e]);
        let ghost log_before = apdu_exchanger.transcript();
        let ghost acc = application_definition_file_vec@.map_values(|a: ApplicationDefinitionFile| a@);
        match directory_entry.tag_vec.find_tag(TAG_4F) {
            None => {
                proof {
                    lemma_read_all_single_without_aid(e);
                    lemma_read_all_append(
                        entries.take(i as int),
                        seq![e],
                        log_before.skip(start),
                        Seq::empty(),
                    );
                    assert(log_before.skip(start) + Seq::<Exchange>::empty() =~= log_before.skip(start));
                    assert(acc + Seq::<ApplicationDefinitionFileModel>::empty() =~= acc);
                }
            },
            Some(application_identifier) => {
                let ghost aid = application_identifier@;
                let ghost ex_before = *apdu_exchanger;
                let result = read_application_definition_file(apdu_exchanger, application_identifier);
                proof {
                    lemma_calls_compose(*old(apdu_exchanger), ex_before, *apdu_exchanger, start);
                }
                let ghost log_after = apdu_exchanger.transcript();
                let ghost s = log_after.skip(log_before.len() as int);
                proof {
                    assert(log_after.skip(start) =~= log_before.skip(start) + s);
                    assert(log_after.take(log_before.len() as int) == log_before);
                    assert(log_after.take(start) =~= log_before.take(start));
                    lemma_read_all_single_with_aid(e, aid, s);
                    lemma_read_all_append(entries.take(i as int), seq![e], log_before.skip(start), s);
                }
                match result {
                    Err(x) => {
                        proof {
                            assert(entries =~= entries.take(i + 1) + entries.skip(i + 1));
                            lemma_read_all_prefix_err(
                                entries.take(i + 1),
                                entries.skip(i + 1),
                                log_after.skip(start),
                            );
                        }
                        return Err(x);
                    },
                    Ok(None) => {
                        assert(acc + prepend_application(None, Seq::empty()) =~= acc);
                    },
                    Ok(Some(application_definition_file)) => {
                        let ghost a = application_definition_file@;
                        application_definition_file_vec.push(application_definition_file);
                        assert(application_definition_file_vec@.map_values(
                            |a: ApplicationDefinitionFile| a@,
                        ) =~= acc + prepend_application(Some(a), Seq::empty()));
                    },
                }
            },
        }
        i += 1;
    }
    assert(entries.take(i as int) =~= entries);
    Ok(application_definition_file_vec)
}

/// Reads a card over `apdu_exchanger`: selects the PPSE, reads its
/// directory, then every application that the directory names.
pub fn read_card_image<C: SmartCardChannel>(apdu_exchanger: &mut EmvApduExchanger<C>) -> (r: Result<
    EmvCardImage,
    error::Error,
>)
    ensures
        final(apdu_exchanger).transcript().len() > old(apdu_exchanger).transcript().len(),
        final(apdu_exchanger).transcript().take(old(apdu_exchanger).transcript().len() as int)
            == old(apdu_exchanger).transcript(),
        spec_read_card(
            final(apdu_exchanger).transcript().skip(old(apdu_exchanger).transcript().len() as int),
        ) == Some(card_result_model(r)),
        keeps_history(*old(apdu_exchanger), *final(apdu_exchanger)),
        final(apdu_exchanger).channel_at(old(apdu_exchanger).transcript().len() as int)
            == old(apdu_exchanger).channel(),
        final(apdu_exchanger).chained(old(apdu_exchanger).transcript().len() as int),
        forall|i: int|
            #![trigger final(apdu_exchanger).in_run(old(apdu_exchanger).transcript().len() as int, i)]
            final(apdu_exchanger).in_run(old(apdu_exchanger).transcript().len() as int, i) ==> exists|
                channel: &mut C,
                command: CommandApdu,
                buffer: &mut [u8; 264],
                raw: Result<ResponseApdu, ReaderError>,
            |
            {
                &&& *channel == final(apdu_exchanger).channel_at(i)
                &&& spec_command_bytes(command) =~= final(apdu_exchanger).transcript()[i].command
                &&& #[trigger] call_ensures(C::exchange_apdu, (channel, command, buffer), raw)
                &&& final(apdu_exchanger).transcript()[i].response == channel_response_model(raw)
                &&& *final(channel) == final(apdu_exchanger).channel_after(i)
            },
{
    let ghost old_log = apdu_exchanger.transcript();
    let ghost start = old_log.len() as int;
    let mut image = EmvCardImage {
        directory_definition_file_vec: Vec::new(),
        application_definition_file_vec: Vec::new(),
    };

    let ppse_name = vstd::slice::slice_to_vec(PPSE_FILE_NAME.as_slice());
    let ppse = read_directory_definition_file(apdu_exchanger, ppse_name);
    let ghost after_select = apdu_exchanger.transcript();
    let ghost ex1 = *apdu_exchanger;
    let ghost log1 = after_select.skip(start);
    assert(log1 =~= seq![after_select.last()]);
    assert(after_select.take(start) =~= old_log);
    match ppse {
        Err(e) => {
            assert(spec_read_card(log1) == Some(card_result_model(Err(e))));
            return Err(e);
        },
        Ok(Some(ppse_directory_definition_file)) => {
            image.directory_definition_file_vec.push(ppse_directory_definition_file);
        },
        Ok(None) => {},
    }
    let ghost directory = spec_directory_after(PPSE_FILE_NAME@, log1[0].response);

    let mut i: usize = 0;
    while i < image.directory_definition_file_vec.len()
        invariant
            0 <= i <= image.directory_definition_file_vec@.len() <= 1,
            keeps_history(*old(apdu_exchanger), *apdu_exchanger),
            apdu_exchanger.channel_at(start) == old(apdu_exchanger).channel(),
            apdu_exchanger.chained(start),
            forall|i: int|
                #![trigger apdu_exchanger.in_run(start, i)]
                apdu_exchanger.in_run(start, i) ==> exists|
                    channel: &mut C,
                    command: CommandApdu,
                    buffer: &mut [u8; 264],
                    raw: Result<ResponseApdu, ReaderError>,
                |
                {
                    &&& *channel == apdu_exchanger.channel_at(i)
                    &&& spec_command_bytes(command) =~= apdu_exchanger.transcript()[i].command
                    &&& #[trigger] call_ensures(C::exchange_apdu, (channel, command, buffer), raw)
                    &&& apdu_exchanger.transcript()[i].response == channel_response_model(raw)
                    &&& *final(channel) == apdu_exchanger.channel_after(i)
                },
            apdu_exchanger.transcript().len() > start,
            old_log == old(apdu_exchanger).transcript(),
            start == old_log.len(),
            after_select.len() == start + 1,
            after_select.take(start) == old_log,
            log1 == after_select.skip(start),
            log1.len() == 1,
            log1[0].command == spec_select_directory_bytes(PPSE_FILE_NAME@),
            directory is Ok,
            directory->Ok_0 is None ==> image.directory_definition_file_vec@.len() == 0,
            directory->Ok_0 matches Some(d) ==> image.directory_definition_file_vec@.len() == 1
                && image.directory_definition_file_vec@[0]@ == d,
            directory == spec_directory_after(PPSE_FILE_NAME@, log1[0].response),
            i == 0 ==> apdu_exchanger.transcript() == after_select
                && image.application_definition_file_vec@.len() == 0,
            i == 1 ==> apdu_exchanger.transcript().len() > start
                && apdu_exchanger.transcript().take(start) == old_log
                && spec_read_card(apdu_exchanger.transcript().skip(start)) == Some(
                Ok::<EmvCardImageModel, error::Error>(image@),
            ),
        decreases image.directory_definition_file_vec@.len() - i,
    {
        let ghost d = image.directory_definition_file_vec@[0]@;
        let ghost ex_before = *apdu_exchanger;
        let result = read_all_application_definition_file(
            apdu_exchanger,
            &image.directory_definition_file_vec[i],
        );
        proof {
            lemma_calls_compose(*old(apdu_exchanger), ex_before, *apdu_exchanger, start);
        }
        let ghost after_all = apdu_exchanger.transcript();
        let ghost log2 = after_all.skip(start);
        assert(after_all.take(start + 1) =~= after_select);
        assert(log2.skip(1) =~= after_all.skip(start + 1));
        assert(log2[0] == log1[0]);
        assert(after_all.take(start) =~= old_log);
        match result {
            Err(e) => {
                assert(spec_read_card(log2) == Some(card_result_model(Err(e))));
                return Err(e);
            },
            Ok(application_definition_file) => {
                let mut application_definition_file = application_definition_file;
                let ghost adfs = application_definition_file@.map_values(
                    |a: ApplicationDefinitionFile| a@,
                );
                image.application_definition_file_vec.append(&mut application_definition_file);
                assert(image@.applications =~= adfs);
                assert(image@.directories =~= seq![d]);
            },
        }
        i += 1;
    }
    if i == 0 {
        assert(image@.applications =~= Seq::<ApplicationDefinitionFileModel>::empty());
        assert(image@.directories =~= Seq::<DirectoryDefinitionFileModel>::empty());
        assert(spec_read_card(log1) == Some(Ok::<EmvCardImageModel, error::Error>(image@)));
    }
    Ok(image)
}

/// Reads an EMV card: connects to it through `reader`, then reads it as
/// `read_card_image` does, over an exchanger made on the channel that the
/// connection gave. A failed connection is answered with its mapped error,
/// before anything is sent.
pub fn read_emv_card<R: SmartCardReader>(reader: R) -> (r: Result<EmvCardImage, error::Error>)
    ensures
        exists|c: Result<R::SmartCardChannel, ReaderError>|
            {
                &&& call_ensures(R::connect, (&reader,), c)
                &&& c matches Err(re) ==> r == Err::<EmvCardImage, error::Error>(
                    spec_from_reader_error(re),
                )
                &&& c matches Ok(connected) ==> exists|ex: EmvApduExchanger<R::SmartCardChannel>|
                    {
                        &&& ex.transcript().len() > 0
                        &&& ex.channel_at(0) == connected
                        &&& ex.chained(0)
                        &&& spec_read_card(ex.transcript()) == Some(card_result_model(r))
                        &&& forall|i: int|
                            #![trigger ex.in_run(0, i)]
                            ex.in_run(0, i) ==> exists|
                                channel: &mut R::SmartCardChannel,
                                command: CommandApdu,
                                buffer: &mut [u8; 264],
                                raw: Result<ResponseApdu, ReaderError>,
                            |
                            {
                                &&& *channel == ex.channel_at(i)
                                &&& spec_command_bytes(command) =~= ex.transcript()[i].command
                                &&& #[trigger] call_ensures(R::SmartCardChannel::exchange_apdu, (channel, command, buffer), raw)
                                &&& ex.transcript()[i].response == channel_response_model(raw)
                                &&& *final(channel) == ex.channel_after(i)
                            }
                    }
            },
{
    let connect = R::connect;
    let connection = connect(&reader);
    let ghost c = connection;
    let channel = match connection.map_err_to_emv_reader_error() {
        Err(e) => return Err(e),
        Ok(channel) => channel,
    };
    let mut apdu_exchanger = EmvApduExchanger::new(channel);
    let image = read_card_image(&mut apdu_exchanger);
    assert(apdu_exchanger.transcript().skip(0) =~= apdu_exchanger.transcript());
    image
}

} // verus!
