//! The entry of a private cache in the netrc file.

use vstd::prelude::*;
use vstd::string::*;

use crate::nixconf;
use crate::text;

verus! {

/// The domain of a host name: without the scheme and the slashes at the end.
pub open spec fn domain_of(hostname: Seq<char>) -> Seq<char> {
    text::trim_end_matches(
        text::trim_start_matches(text::trim_start_matches(hostname, "https://"@), "http://"@),
        "/"@,
    )
}

/// The entry of a domain, without its line end.
pub open spec fn entry(domain: Seq<char>, auth_token: Seq<char>) -> Seq<char> {
    "machine "@ + domain + " login authtoken password "@ + auth_token
}

/// Whether the words at `i` name a machine.
pub open spec fn names_at(words: Seq<Seq<char>>, domain: Seq<char>, i: int) -> bool {
    0 <= i < words.len() - 1 && words[i] == "machine"@ && words[i + 1] == domain
}

/// Whether a line holds the entry of a machine: the word "machine" with the name of the
/// machine behind it.
pub open spec fn holds_entry_of(line: Seq<char>, domain: Seq<char>) -> bool {
    exists|i: int| #[trigger] names_at(text::words(line), domain, i)
}

/// Whether a line does not hold the entry of a machine.
pub open spec fn of_another(domain: Seq<char>) -> spec_fn(Seq<char>) -> bool {
    |line: Seq<char>| !holds_entry_of(line, domain)
}

/// `s` with a line end behind it, unless it is empty or has one.
pub open spec fn ended(s: Seq<char>) -> Seq<char> {
    if s.len() > 0 && s.last() != '\n' {
        s + "\n"@
    } else {
        s
    }
}

/// The text of a netrc file with the entry of a host at its end, and no other entry
/// of that host.
pub open spec fn updated(
    content: Seq<char>,
    hostname: Seq<char>,
    auth_token: Seq<char>,
) -> Seq<char> {
    let domain = domain_of(hostname);
    let kept = text::lines(content).filter(of_another(domain));
    ended(text::join(kept, "\n"@)) + entry(domain, auth_token) + "\n"@
}

/// Computes `domain_of`.
pub fn netrc_domain(hostname: &str) -> (r: String)
    ensures
        r@ == domain_of(hostname@),
        r@ == text::trim_end_matches(
            text::trim_start_matches(
                text::trim_start_matches(hostname@, "https://"@),
                "http://"@,
            ),
            "/"@,
        ),
{
    let r = text::drop_leading(hostname, "https://");
    let r = text::drop_leading(r.as_str(), "http://");
    text::drop_trailing(r.as_str(), "/")
}

/// Computes `holds_entry_of`.
fn names_machine(line: &str, domain: &str) -> (r: bool)
    ensures
        r == holds_entry_of(line@, domain@),
{
    let words = text::split_words(line);
    let ghost all = text::words(line@);
    let mut i: usize = 1;
    while i < words.len()
        invariant
            1 <= i,
            all == text::words(line@),
            all == text::texts(words@),
            forall|j: int| j < i - 1 ==> !#[trigger] names_at(all, domain@, j),
        decreases words@.len() - i,
    {
        assert(all[i - 1] == words@[i - 1]@ && all[i as int] == words@[i as int]@);
        if text::same_text(words[i - 1].as_str(), "machine") && text::same_text(
            words[i].as_str(),
            domain,
        ) {
            assert(names_at(all, domain@, i - 1));
            return true;
        }
        i = i + 1;
    }
    false
}

/// The text of the netrc file with the entry for private cache access.
pub fn write_netrc(content: &str, hostname: &str, auth_token: &str) -> (r: String)
    ensures
        r@ == updated(content@, hostname@, auth_token@),
        ("machine "@ + domain_of(hostname@) + " login authtoken password "@ + auth_token@
            + "\n"@).is_suffix_of(r@),
{
    let domain = netrc_domain(hostname);
    let lines = text::split_lines(content);
    let ghost all = text::texts(lines@);
    let ghost keep = of_another(domain@);
    let mut kept: Vec<String> = Vec::new();
    let mut i: usize = 0;
    proof {
        reveal(Seq::filter);
        assert(text::texts(kept@) == all.take(0).filter(keep));
    }
    while i < lines.len()
        invariant
            i <= lines@.len(),
            all == text::texts(lines@),
            keep == of_another(domain@),
            text::texts(kept@) == all.take(i as int).filter(keep),
        decreases lines@.len() - i,
    {
        proof {
            reveal(Seq::filter);
            assert(all.take(i + 1).drop_last() == all.take(i as int));
            assert(all.take(i + 1).last() == lines@[i as int]@);
        }
        if !names_machine(lines[i].as_str(), domain.as_str()) {
            let ghost shorter = text::texts(kept@);
            kept.push(lines[i].clone());
            assert(text::texts(kept@) == shorter.push(lines@[i as int]@));
        }
        i = i + 1;
    }
    assert(all.take(i as int) == all);
    let mut r = text::joined(kept.as_slice(), "\n");
    let ghost body = r@;
    if !r.as_str().is_empty() && !text::has_suffix(r.as_str(), "\n") {
        r.append("\n");
    }
    proof {
        reveal_strlit("\n");
        if body.len() > 0 {
            assert(body.subrange(body.len() - 1, body.len() as int) == seq![body.last()]);
            assert("\n"@ == seq!['\n']);
            assert(seq![body.last()][0] == body.last());
            assert("\n"@.is_suffix_of(body) <==> body.last() == '\n');
        }
        assert(r@ == ended(body));
    }
    r.append("machine ");
    r.append(domain.as_str());
    r.append(" login authtoken password ");
    r.append(auth_token);
    r.append("\n");
    assert(r@ == ended(body) + entry(domain@, auth_token@) + "\n"@);
    proof {
        written_entry_is_the_whole_entry(content@, hostname@, auth_token@);
    }
    r
}

/// Where the netrc file is: in the output directory, where one is given, and else
/// in the user's configuration directory.
pub fn netrc_target(has_output_dir: bool, has_config_dir: bool) -> (r: Result<
    nixconf::ConfTarget,
    nixconf::NixConfError,
>)
    ensures
        r == if has_output_dir {
            Ok(nixconf::ConfTarget::OutputDirectory)
        } else if has_config_dir {
            Ok(nixconf::ConfTarget::UserConf)
        } else {
            Err(nixconf::NixConfError::NoConfigDirectory)
        },
{
    if has_output_dir {
        Ok(nixconf::ConfTarget::OutputDirectory)
    } else if has_config_dir {
        Ok(nixconf::ConfTarget::UserConf)
    } else {
        Err(nixconf::NixConfError::NoConfigDirectory)
    }
}

/// A carriage return at the end of a line does not change whose entries it holds.
proof fn lemma_entry_without_return(line: Seq<char>, domain: Seq<char>)
    ensures
        holds_entry_of(text::drop_carriage_return(line), domain) == holds_entry_of(line, domain),
{
    let short = text::drop_carriage_return(line);
    if short != line {
        let empty = Seq::<char>::empty();
        assert(line == short + seq!['\r'] + empty);
        text::lemma_words_concat(short, '\r', empty);
        assert(text::words(empty) == Seq::<Seq<char>>::empty());
        assert(text::words(short) + text::words(empty) == text::words(short));
    }
}

/// The entry of a machine holds it.
proof fn lemma_entry_is_entry(domain: Seq<char>, auth_token: Seq<char>)
    requires
        text::is_word(domain),
    ensures
        holds_entry_of(entry(domain, auth_token), domain),
{
    reveal_strlit("machine ");
    reveal_strlit("machine");
    reveal_strlit(" login authtoken password ");
    let line = entry(domain, auth_token);
    let rest = " login authtoken password "@.skip(1) + auth_token;
    assert(text::is_word("machine"@));
    text::lemma_words_of_word("machine"@);
    text::lemma_words_of_word(domain);
    assert(line == "machine"@ + seq![' '] + (domain + seq![' '] + rest));
    text::lemma_words_concat("machine"@, ' ', domain + seq![' '] + rest);
    text::lemma_words_concat(domain, ' ', rest);
    let words = text::words(line);
    assert(words == seq!["machine"@] + (seq![domain] + text::words(rest)));
    assert(names_at(words, domain, 0));
}

/// Each line of joined lines is one of them, with or without a carriage return at
/// its end.
proof fn lemma_lines_of_joined(parts: Seq<Seq<char>>, x: Seq<char>)
    requires
        forall|i: int| 0 <= i < parts.len() ==> !(#[trigger] parts[i]).contains('\n'),
        text::lines(ended(text::join(parts, "\n"@))).contains(x),
    ensures
        exists|i: int|
            0 <= i < parts.len() && (x == #[trigger] parts[i] || x == text::drop_carriage_return(
                parts[i],
            )),
    decreases parts.len(),
{
    reveal_strlit("\n");
    assert("\n"@ == seq!['\n']);
    let body = text::join(parts, "\n"@);
    if parts.len() == 0 {
        assert(text::lines(ended(body)).len() == 0);
    } else {
        let first = parts[0];
        let rest = parts.drop_first();
        lemma_first_of_joined(parts);
        let k = choose|k: int|
            0 <= k < text::lines(ended(body)).len() && text::lines(ended(body))[k] == x;
        assert forall|i: int| 0 <= i < rest.len() implies !(#[trigger] rest[i]).contains('\n') by {
            assert(rest[i] == parts[i + 1]);
        }
        if parts.len() == 1 && first.len() == 0 {
            assert(ended(body) == Seq::<char>::empty());
            assert(text::lines(ended(body)).len() == 0);
        } else {
            let tail = text::lines(ended(text::join(rest, "\n"@)));
            if k == 0 {
                assert(x == text::drop_carriage_return(parts[0]));
            } else {
                assert(tail[k - 1] == x);
                lemma_lines_of_joined(rest, x);
                let j = choose|j: int|
                    0 <= j < rest.len() && (x == #[trigger] rest[j] || x
                        == text::drop_carriage_return(rest[j]));
                assert(parts[j + 1] == rest[j]);
            }
        }
    }
}

/// Joined lines with a line end start with the first of them.
proof fn lemma_first_of_joined(parts: Seq<Seq<char>>)
    requires
        parts.len() > 0,
        !parts[0].contains('\n'),
    ensures
        parts.len() > 1 || parts[0].len() > 0 ==> text::lines(ended(text::join(parts, "\n"@)))
            == seq![text::drop_carriage_return(parts[0])] + text::lines(
            ended(text::join(parts.drop_first(), "\n"@)),
        ),
{
    reveal_strlit("\n");
    assert("\n"@ == seq!['\n']);
    let first = parts[0];
    let rest = parts.drop_first();
    let body = text::join(parts, "\n"@);
    let tail = ended(text::join(rest, "\n"@));
    if parts.len() > 1 || first.len() > 0 {
        let all = first + seq!['\n'] + tail;
        if parts.len() == 1 {
            assert(first.last() == first[first.len() - 1]);
            assert(ended(body) == first + "\n"@);
            assert(text::join(rest, "\n"@) == Seq::<char>::empty());
            assert(all == ended(body));
        } else {
            let joined = text::join(rest, "\n"@);
            assert(body == first + "\n"@ + joined);
            if joined.len() > 0 {
                assert(body.last() == joined.last());
                if joined.last() != '\n' {
                    assert(ended(body) == first + "\n"@ + joined + "\n"@);
                }
                assert(all == ended(body));
            } else {
                assert(body.last() == '\n');
                assert(all == ended(body));
            }
        }
        let n = first.len() as int;
        assert forall|i: int| 0 <= i < n implies #[trigger] all[i] != '\n' by {
            assert(all[i] == first[i]);
            assert(first.contains(first[i]));
        }
        text::lemma_find_is(all, '\n', n);
        assert(all.take(n) == first);
        assert(all.skip(n + 1) == tail);
    }
}

/// The kept lines are lines of the file and of other domains.
proof fn lemma_kept(content: Seq<char>, domain: Seq<char>)
    ensures
        forall|i: int|
            #![trigger text::lines(content).filter(of_another(domain))[i]]
            0 <= i < text::lines(content).filter(of_another(domain)).len() ==> {
                &&& !text::lines(content).filter(of_another(domain))[i].contains('\n')
                &&& !holds_entry_of(text::lines(content).filter(of_another(domain))[i], domain)
            },
{
    let all = text::lines(content);
    let keep = of_another(domain);
    let kept = all.filter(keep);
    text::lemma_lines_have_no_feed(content);
    assert forall|i: int| #![trigger kept[i]] 0 <= i < kept.len() implies {
        &&& !kept[i].contains('\n')
        &&& !holds_entry_of(kept[i], domain)
    } by {
        assert(kept.contains(kept[i]));
        all.lemma_filter_contains_rev(keep, kept[i]);
        let j = choose|j: int| 0 <= j < all.len() && all[j] == kept[i];
        assert(!all[j].contains('\n'));
        assert(keep(kept[i]));
    }
}

/// An updated file has one entry of the host: the new one, which is its last line.
/// The host is one word, and the token holds no line end.
pub proof fn one_entry_after_update(
    content: Seq<char>,
    hostname: Seq<char>,
    auth_token: Seq<char>,
)
    requires
        text::is_word(domain_of(hostname)),
        text::is_line(entry(domain_of(hostname), auth_token)),
    ensures
        ({
            let domain = domain_of(hostname);
            let after = text::lines(updated(content, hostname, auth_token));
            &&& after.len() > 0
            &&& after.last() == entry(domain, auth_token)
            &&& holds_entry_of(after.last(), domain)
            &&& forall|i: int|
                0 <= i < after.len() - 1 ==> !holds_entry_of(#[trigger] after[i], domain)
        }),
{
    let domain = domain_of(hostname);
    let kept = text::lines(content).filter(of_another(domain));
    let body = ended(text::join(kept, "\n"@));
    let line = entry(domain, auth_token);
    reveal_strlit("\n");
    assert("\n"@ == seq!['\n']);
    lemma_kept(content, domain);
    lemma_entry_is_entry(domain, auth_token);
    if body.len() > 0 {
        assert(body.last() == '\n');
    }
    text::lemma_lines_concat(body, line + "\n"@);
    text::lemma_lines_of_line(line, Seq::empty());
    assert(line + seq!['\n'] + Seq::<char>::empty() == line + "\n"@);
    assert(seq![line] + text::lines(Seq::<char>::empty()) == seq![line]);
    let after = text::lines(updated(content, hostname, auth_token));
    assert(updated(content, hostname, auth_token) == body + (line + "\n"@));
    assert(after == text::lines(body) + seq![line]);
    assert forall|i: int| 0 <= i < after.len() - 1 implies !holds_entry_of(
        #[trigger] after[i],
        domain,
    ) by {
        let x = after[i];
        assert(text::lines(body)[i] == x);
        lemma_lines_of_joined(kept, x);
        let j = choose|j: int|
            0 <= j < kept.len() && (x == #[trigger] kept[j] || x == text::drop_carriage_return(
                kept[j],
            ));
        assert(!holds_entry_of(kept[j], domain));
        lemma_entry_without_return(kept[j], domain);
    }
}

/// The lines of joined lines hold each of them that is not empty and has no
/// carriage return at its end.
proof fn lemma_joined_holds(parts: Seq<Seq<char>>, i: int)
    requires
        forall|j: int| 0 <= j < parts.len() ==> !(#[trigger] parts[j]).contains('\n'),
        0 <= i < parts.len(),
        text::is_line(parts[i]),
        parts[i].len() > 0,
    ensures
        text::lines(ended(text::join(parts, "\n"@))).contains(parts[i]),
    decreases parts.len(),
{
    let rest = parts.drop_first();
    assert forall|j: int| 0 <= j < rest.len() implies !(#[trigger] rest[j]).contains('\n') by {
        assert(rest[j] == parts[j + 1]);
    }
    assert(!parts[0].contains('\n'));
    lemma_first_of_joined(parts);
    let all = text::lines(ended(text::join(parts, "\n"@)));
    if i == 0 {
        assert(all[0] == parts[0]);
    } else {
        assert(rest[i - 1] == parts[i]);
        lemma_joined_holds(rest, i - 1);
        let tail = text::lines(ended(text::join(rest, "\n"@)));
        let k = choose|k: int| 0 <= k < tail.len() && tail[k] == parts[i];
        assert(all[k + 1] == parts[i]);
    }
}

/// All lines that do not hold the entry of the host stay in an updated file: the entries
/// of other machines among them, whatever their names have in common with that of the
/// host.
pub proof fn update_keeps_other_entries(
    content: Seq<char>,
    hostname: Seq<char>,
    auth_token: Seq<char>,
    line: Seq<char>,
)
    requires
        text::lines(content).contains(line),
        !holds_entry_of(line, domain_of(hostname)),
        line.len() > 0,
        line.last() != '\r',
    ensures
        text::lines(updated(content, hostname, auth_token)).contains(line),
{
    let domain = domain_of(hostname);
    let keep = of_another(domain);
    let all = text::lines(content);
    let kept = all.filter(keep);
    let body = ended(text::join(kept, "\n"@));
    let rest = entry(domain, auth_token) + "\n"@;
    reveal_strlit("\n");
    lemma_kept(content, domain);
    text::lemma_lines_have_no_feed(content);
    let k = choose|k: int| 0 <= k < all.len() && all[k] == line;
    assert(keep(all[k]));
    all.lemma_filter_contains(keep, k);
    let i = choose|i: int| 0 <= i < kept.len() && kept[i] == line;
    lemma_joined_holds(kept, i);
    if body.len() > 0 {
        assert(body.last() == '\n');
    }
    text::lemma_lines_concat(body, rest);
    assert(updated(content, hostname, auth_token) == body + rest);
    let j = choose|j: int| 0 <= j < text::lines(body).len() && text::lines(body)[j] == line;
    assert((text::lines(body) + text::lines(rest))[j] == line);
}

/// A written file ends in the entry of the host with the whole auth token, and a file that
/// was empty holds nothing else.
pub proof fn written_entry_is_the_whole_entry(
    content: Seq<char>,
    hostname: Seq<char>,
    auth_token: Seq<char>,
)
    ensures
        ("machine "@ + domain_of(hostname) + " login authtoken password "@ + auth_token
            + "\n"@).is_suffix_of(updated(content, hostname, auth_token)),
        content.len() == 0 ==> updated(content, hostname, auth_token) == "machine "@ + domain_of(
            hostname,
        ) + " login authtoken password "@ + auth_token + "\n"@,
{
    let domain = domain_of(hostname);
    let kept = text::lines(content).filter(of_another(domain));
    let front = ended(text::join(kept, "\n"@));
    let line = "machine "@ + domain + " login authtoken password "@ + auth_token + "\n"@;
    let all = updated(content, hostname, auth_token);
    assert(all == front + line);
    assert(all.subrange(front.len() as int, all.len() as int) == line);
    if content.len() == 0 {
        reveal(Seq::filter);
        assert(kept.len() == 0);
        assert(front == Seq::<char>::empty());
        assert(all == line);
    }
}

/// The words of the last line of a written file are those of an entry: the machine is the
/// domain, the login is "authtoken", and the password is the whole auth token.
#[verifier::rlimit(40)]
pub proof fn words_of_the_written_entry(
    content: Seq<char>,
    hostname: Seq<char>,
    auth_token: Seq<char>,
)
    requires
        text::is_word(domain_of(hostname)),
        text::is_word(auth_token),
    ensures
        ({
            let after = text::lines(updated(content, hostname, auth_token));
            &&& after.len() > 0
            &&& text::words(after.last()) == seq![
                "machine"@,
                domain_of(hostname),
                "login"@,
                "authtoken"@,
                "password"@,
                auth_token,
            ]
        }),
{
    let domain = domain_of(hostname);
    let line = entry(domain, auth_token);
    reveal_strlit("machine ");
    reveal_strlit(" login authtoken password ");
    reveal_strlit("machine");
    reveal_strlit("login");
    reveal_strlit("authtoken");
    reveal_strlit("password");
    assert(line == "machine"@ + seq![' '] + (domain + seq![' '] + ("login"@ + seq![' '] + (
    "authtoken"@ + seq![' '] + ("password"@ + seq![' '] + auth_token)))));
    text::lemma_words_concat("password"@, ' ', auth_token);
    text::lemma_words_concat("authtoken"@, ' ', "password"@ + seq![' '] + auth_token);
    text::lemma_words_concat(
        "login"@,
        ' ',
        "authtoken"@ + seq![' '] + ("password"@ + seq![' '] + auth_token),
    );
    text::lemma_words_concat(
        domain,
        ' ',
        "login"@ + seq![' '] + ("authtoken"@ + seq![' '] + ("password"@ + seq![' ']
            + auth_token)),
    );
    text::lemma_words_concat(
        "machine"@,
        ' ',
        domain + seq![' '] + ("login"@ + seq![' '] + ("authtoken"@ + seq![' '] + ("password"@
            + seq![' '] + auth_token))),
    );
    text::lemma_words_of_word("machine"@);
    text::lemma_words_of_word(domain);
    text::lemma_words_of_word("login"@);
    text::lemma_words_of_word("authtoken"@);
    text::lemma_words_of_word("password"@);
    text::lemma_words_of_word(auth_token);
    assert(text::is_line(line)) by {
        assert forall|i: int| 0 <= i < line.len() implies #[trigger] line[i] != '\n' && line[i]
            != '\r' by {
            let at = "machine "@.len() as int;
            let then = at + domain.len();
            let last = then + " login authtoken password "@.len();
            if at <= i < then {
                assert(line[i] == domain[i - at]);
            } else if last <= i {
                assert(line[i] == auth_token[i - last]);
            }
        }
    }
    one_entry_after_update(content, hostname, auth_token);
    assert(text::words(line) == seq![
        "machine"@,
        domain,
        "login"@,
        "authtoken"@,
        "password"@,
        auth_token,
    ]);
}

/// The domain of a host is the host without its scheme and the slash at its end.
#[verifier::rlimit(40)]
pub proof fn domain_is_the_host(domain: Seq<char>)
    requires
        !"https://"@.is_prefix_of(domain),
        !"http://"@.is_prefix_of(domain),
        !"https://"@.is_prefix_of(domain + "/"@),
        !"http://"@.is_prefix_of(domain + "/"@),
        !"/"@.is_suffix_of(domain),
    ensures
        domain_of("https://"@ + domain) == domain,
        domain_of("http://"@ + domain) == domain,
        domain_of(domain) == domain,
        domain_of("https://"@ + domain + "/"@) == domain,
        domain_of("http://"@ + domain + "/"@) == domain,
        domain_of(domain + "/"@) == domain,
{
    let https = "https://"@;
    let http = "http://"@;
    let slashed = domain + "/"@;
    reveal_strlit("https://");
    reveal_strlit("http://");
    reveal_strlit("/");
    text::repetitions_are_taken_away(domain, https);
    text::repetitions_are_taken_away(domain, http);
    text::repetitions_are_taken_away(domain, "/"@);
    text::repetitions_are_taken_away(slashed, https);
    text::repetitions_are_taken_away(slashed, http);
    assert(https + domain + "/"@ == https + slashed);
    assert(http + domain + "/"@ == http + slashed);
    lemma_plain_is_not_secure(domain);
    lemma_plain_is_not_secure(slashed);
    text::repetitions_are_taken_away(http + domain, https);
    text::repetitions_are_taken_away(http + slashed, https);
}

proof fn lemma_plain_is_not_secure(rest: Seq<char>)
    ensures
        !"https://"@.is_prefix_of("http://"@ + rest),
{
    reveal_strlit("https://");
    reveal_strlit("http://");
    let all = "http://"@ + rest;
    if "https://"@.is_prefix_of(all) {
        assert(all.subrange(0, 8)[4] == "https://"@[4]);
        assert(all[4] == ':');
    }
}

/// A line holds the entry of a machine exactly if two neighbouring words of it are "machine"
/// and the name of the machine, wherever they stand.
pub proof fn entry_is_machine_and_name(line: Seq<char>, domain: Seq<char>)
    ensures
        holds_entry_of(line, domain) <==> exists|i: int|
            0 <= i && i + 1 < text::words(line).len() && #[trigger] text::words(line)[i]
                == "machine"@ && text::words(line)[i + 1] == domain,
{
    let words = text::words(line);
    if holds_entry_of(line, domain) {
        let i = choose|i: int| #[trigger] names_at(words, domain, i);
        assert(words[i] == "machine"@);
    }
    if exists|i: int|
        0 <= i && i + 1 < words.len() && #[trigger] words[i] == "machine"@ && words[i + 1]
            == domain {
        let i = choose|i: int|
            0 <= i && i + 1 < words.len() && #[trigger] words[i] == "machine"@ && words[i + 1]
                == domain;
        assert(names_at(words, domain, i));
    }
}

/// A written file has the lines that were there, in their order without those that hold an
/// entry of the host, and then the new entry, and no other line. (A carriage return at the end
/// of a line and empty lines at the end of the file are not kept.)
pub proof fn lines_of_a_written_file(
    content: Seq<char>,
    hostname: Seq<char>,
    auth_token: Seq<char>,
)
    requires
        text::is_line(
            "machine "@ + domain_of(hostname) + " login authtoken password "@ + auth_token,
        ),
        forall|i: int|
            0 <= i < text::lines(content).len() ==> text::is_line(
                #[trigger] text::lines(content)[i],
            ),
        ({
            let kept = text::lines(content).filter(
                |line: Seq<char>| !holds_entry_of(line, domain_of(hostname)),
            );
            kept.len() == 0 || kept.last().len() > 0
        }),
    ensures
        text::lines(updated(content, hostname, auth_token)) == text::lines(content).filter(
            |line: Seq<char>| !holds_entry_of(line, domain_of(hostname)),
        ).push("machine "@ + domain_of(hostname) + " login authtoken password "@ + auth_token),
{
    let domain = domain_of(hostname);
    let all = text::lines(content);
    let keep = of_another(domain);
    let kept = all.filter(keep);
    let joined = text::join(kept, "\n"@);
    let body = ended(joined);
    let line = entry(domain, auth_token);
    reveal_strlit("\n");
    assert("\n"@ == seq!['\n']);
    assert(kept == all.filter(|line: Seq<char>| !holds_entry_of(line, domain)));
    assert forall|i: int| 0 <= i < kept.len() implies text::is_line(#[trigger] kept[i]) by {
        assert(kept.contains(kept[i]));
        all.lemma_filter_contains_rev(keep, kept[i]);
        let j = choose|j: int| 0 <= j < all.len() && all[j] == kept[i];
        assert(text::is_line(all[j]));
    }
    if kept.len() == 0 {
        assert(body == Seq::<char>::empty());
        assert(text::lines(body) == kept);
    } else {
        lemma_joined_last(kept, "\n"@);
        assert(text::is_line(kept[kept.len() - 1]));
        assert(kept.last().contains(kept.last().last()));
        assert(body == joined + "\n"@);
        text::lemma_lines_of_join(kept);
    }
    text::lemma_lines_concat(body, line + "\n"@);
    text::lemma_lines_of_line(line, Seq::empty());
    assert(line + seq!['\n'] + Seq::<char>::empty() == line + "\n"@);
    assert(seq![line] + text::lines(Seq::<char>::empty()) == seq![line]);
    assert(updated(content, hostname, auth_token) == body + (line + "\n"@));
    assert(text::lines(body) + seq![line] == kept.push(line));
}

proof fn lemma_joined_last(parts: Seq<Seq<char>>, separator: Seq<char>)
    requires
        parts.len() > 0,
        parts.last().len() > 0,
    ensures
        text::join(parts, separator).len() > 0,
        text::join(parts, separator).last() == parts.last().last(),
    decreases parts.len(),
{
    if parts.len() > 1 {
        let rest = parts.drop_first();
        assert(rest.last() == parts.last());
        lemma_joined_last(rest, separator);
        assert(text::join(parts, separator).last() == text::join(rest, separator).last());
    }
}

/// The text of a written file: the lines without an entry of the host, joined and ended with
/// a line feed unless there are none or they end with one, and then the entry on a line.
pub proof fn text_of_a_written_file(
    content: Seq<char>,
    hostname: Seq<char>,
    auth_token: Seq<char>,
)
    ensures
        ({
            let domain = domain_of(hostname);
            let body = text::join(
                text::lines(content).filter(|line: Seq<char>| !holds_entry_of(line, domain)),
                "\n"@,
            );
            let line = "machine "@ + domain + " login authtoken password "@ + auth_token + "\n"@;
            let after = updated(content, hostname, auth_token);
            &&& body.len() == 0 ==> after == line
            &&& body.len() > 0 && body.last() == '\n' ==> after == body + line
            &&& body.len() > 0 && body.last() != '\n' ==> after == body + "\n"@ + line
        }),
{
    let domain = domain_of(hostname);
    let body = text::join(
        text::lines(content).filter(|line: Seq<char>| !holds_entry_of(line, domain)),
        "\n"@,
    );
    let line = "machine "@ + domain + " login authtoken password "@ + auth_token + "\n"@;
    assert(of_another(domain) =~= (|line: Seq<char>| !holds_entry_of(line, domain)));
    let after = updated(content, hostname, auth_token);
    assert(after == ended(body) + line);
    if body.len() == 0 {
        assert(after == line);
    }
}

/// A scheme before a host does not change its domain, and neither does a slash behind it.
pub proof fn scheme_and_slash_do_not_matter(host: Seq<char>)
    ensures
        domain_of("https://"@ + host) == domain_of(host),
        !"https://"@.is_prefix_of(host) ==> domain_of("http://"@ + host) == domain_of(host),
        !"https://"@.is_prefix_of(host) && !"http://"@.is_prefix_of(host)
            && !"https://"@.is_prefix_of(host + "/"@) && !"http://"@.is_prefix_of(host + "/"@)
            ==> domain_of(host + "/"@) == domain_of(host),
{
    reveal_strlit("https://");
    reveal_strlit("http://");
    reveal_strlit("/");
    text::repetitions_are_taken_away(host, "https://"@);
    text::repetitions_are_taken_away(host, "http://"@);
    text::repetitions_are_taken_away(host, "/"@);
    text::repetitions_are_taken_away(host + "/"@, "https://"@);
    text::repetitions_are_taken_away(host + "/"@, "http://"@);
    lemma_plain_is_not_secure(host);
    text::repetitions_are_taken_away("http://"@ + host, "https://"@);
}

}
