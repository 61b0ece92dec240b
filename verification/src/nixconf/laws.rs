//! What holds of the settings of nix.conf across operations.

use vstd::prelude::*;
use vstd::string::*;

use crate::nixconf;
use crate::text;

verus! {

/// Whether `key` does not start with white space, which a line would not keep.
pub open spec fn starts_plain(key: Seq<char>) -> bool {
    key.len() == 0 || !text::is_white_space(key[0])
}

/// Whether `key` holds no equals sign, and has no white space at either end.
pub open spec fn is_plain_key(key: Seq<char>) -> bool {
    &&& !key.contains('=')
    &&& key.len() > 0 ==> !text::is_white_space(key[0]) && !text::is_white_space(key.last())
}

/// The line that a setting is written as gives the trimmed value back.
pub proof fn setting_of_line(key: Seq<char>, value: Seq<char>)
    requires
        starts_plain(key),
    ensures
        nixconf::setting(nixconf::setting_line(key, value), key) == Some(text::trim(value)),
{
    reveal_strlit(" = ");
    let line = nixconf::setting_line(key, value);
    let tail = seq![' '] + value;
    let head = key + seq![' '];
    assert(line == head + seq!['='] + tail);
    text::lemma_trim_start_at(head, '=', tail);
    // What trimming leaves of the key: all of it.
    let kept = text::trim_start(head);
    if key.len() == 0 {
        assert(head == seq![' ']);
        assert(head.drop_first() == Seq::<char>::empty());
        assert(text::trim_start(Seq::<char>::empty()) == Seq::<char>::empty());
        assert(kept == Seq::<char>::empty());
    } else {
        assert(head[0] == key[0]);
        assert(kept == head);
    }
    text::lemma_trim_end_at(kept, '=', tail);
    let trimmed = text::trim(line);
    assert(trimmed == kept + seq!['='] + text::trim_end(tail));
    let rest = trimmed.skip(key.len() as int);
    assert(trimmed.subrange(0, key.len() as int) == key);
    let gap = if key.len() == 0 {
        Seq::<char>::empty()
    } else {
        seq![' ']
    };
    assert(rest == gap + seq!['='] + text::trim_end(tail));
    text::lemma_trim_start_at(gap, '=', text::trim_end(tail));
    assert(text::trim_start(gap) == Seq::<char>::empty()) by {
        if key.len() > 0 {
            assert(gap.drop_first() == Seq::<char>::empty());
            assert(text::trim_start(Seq::<char>::empty()) == Seq::<char>::empty());
        }
    }
    let from_sign = text::trim_start(rest);
    assert(from_sign == seq!['='] + text::trim_end(tail));
    assert(from_sign[0] == '=');
    assert(from_sign.drop_first() == text::trim_end(tail));
    text::lemma_trim_of_trim_end(tail);
    assert(tail.drop_first() == value);
    assert(tail[0] == ' ');
}

/// The value of a key is that of one of the lines that set it, and there is none
/// where no line does.
proof fn lemma_get_at(lines: Seq<Seq<char>>, key: Seq<char>, i: int)
    requires
        0 <= i < lines.len(),
        nixconf::setting(lines[i], key) is Some,
        forall|j: int|
            i < j < lines.len() ==> nixconf::setting(#[trigger] lines[j], key) is None,
    ensures
        nixconf::get_in(lines, key) == nixconf::setting(lines[i], key),
    decreases lines.len(),
{
    if i < lines.len() - 1 {
        let shorter = lines.drop_last();
        assert(nixconf::setting(lines[lines.len() - 1], key) is None);
        lemma_get_at(shorter, key, i);
    }
}

proof fn lemma_get_none(lines: Seq<Seq<char>>, key: Seq<char>)
    requires
        forall|j: int|
            0 <= j < lines.len() ==> nixconf::setting(#[trigger] lines[j], key) is None,
    ensures
        nixconf::get_in(lines, key) is None,
    decreases lines.len(),
{
    if lines.len() > 0 {
        assert(nixconf::setting(lines[lines.len() - 1], key) is None);
        lemma_get_none(lines.drop_last(), key);
    }
}

/// Where `set_in` writes: the last line that sets the key, or the end.
proof fn lemma_set_shape(lines: Seq<Seq<char>>, key: Seq<char>, value: Seq<char>) -> (at: int)
    ensures
        0 <= at <= lines.len(),
        forall|j: int| at < j < lines.len() ==> nixconf::setting(#[trigger] lines[j], key) is None,
        at < lines.len() ==> nixconf::setting(lines[at], key) is Some,
        nixconf::set_in(lines, key, value) == if at < lines.len() {
            lines.update(at, nixconf::setting_line(key, value))
        } else {
            lines.push(nixconf::setting_line(key, value))
        },
{
    let at = lemma_last_setting(lines, key);
    nixconf::lemma_set_at(lines, key, value, at);
    at
}

/// The last line that sets a key, or the number of lines where none does.
proof fn lemma_last_setting(lines: Seq<Seq<char>>, key: Seq<char>) -> (at: int)
    ensures
        0 <= at <= lines.len(),
        forall|j: int| at < j < lines.len() ==> nixconf::setting(#[trigger] lines[j], key) is None,
        at < lines.len() ==> nixconf::setting(lines[at], key) is Some,
        at == lines.len() ==> forall|j: int|
            0 <= j < lines.len() ==> nixconf::setting(#[trigger] lines[j], key) is None,
    decreases lines.len(),
{
    if lines.len() == 0 {
        0
    } else if nixconf::setting(lines.last(), key) is Some {
        lines.len() - 1
    } else {
        let init = lines.drop_last();
        let inner = lemma_last_setting(init, key);
        let at = if inner == init.len() {
            lines.len() as int
        } else {
            inner
        };
        assert forall|j: int| at < j < lines.len() implies nixconf::setting(
            #[trigger] lines[j],
            key,
        ) is None by {
            if j < init.len() {
                assert(init[j] == lines[j]);
            }
        }
        if at == lines.len() {
            assert forall|j: int| 0 <= j < lines.len() implies nixconf::setting(
                #[trigger] lines[j],
                key,
            ) is None by {
                if j < init.len() {
                    assert(init[j] == lines[j]);
                }
            }
        } else {
            assert(init[at] == lines[at]);
        }
        at
    }
}

/// What was set is what is read, without the white space around it, whatever the lines
/// were.
pub proof fn get_after_set(lines: Seq<Seq<char>>, key: Seq<char>, value: Seq<char>)
    requires
        starts_plain(key),
    ensures
        nixconf::get_in(nixconf::set_in(lines, key, value), key) == Some(text::trim(value)),
{
    let at = lemma_set_shape(lines, key, value);
    let after = nixconf::set_in(lines, key, value);
    setting_of_line(key, value);
    assert forall|j: int| at < j < after.len() implies nixconf::setting(
        #[trigger] after[j],
        key,
    ) is None by {
        assert(after[j] == lines[j]);
    }
    assert(after[at] == nixconf::setting_line(key, value));
    lemma_get_at(after, key, at);
}

/// A line sets no more than one key.
proof fn lemma_one_key(line: Seq<char>, a: Seq<char>, b: Seq<char>)
    requires
        is_plain_key(a),
        is_plain_key(b),
        nixconf::setting(line, a) is Some,
        nixconf::setting(line, b) is Some,
    ensures
        a == b,
{
    let t = text::trim(line);
    assert(t.subrange(0, a.len() as int) == a);
    assert(t.subrange(0, b.len() as int) == b);
    if a.len() < b.len() {
        lemma_no_longer_key(t, a, b);
    } else if b.len() < a.len() {
        lemma_no_longer_key(t, b, a);
    }
}

/// A line that sets a key sets no longer one: only white space stands between the key
/// and the equals sign.
proof fn lemma_no_longer_key(trimmed: Seq<char>, key: Seq<char>, longer: Seq<char>)
    requires
        key.len() < longer.len() <= trimmed.len(),
        trimmed.subrange(0, longer.len() as int) == longer,
        ({
            let rest = text::trim_start(trimmed.skip(key.len() as int));
            rest.len() > 0 && rest[0] == '='
        }),
    ensures
        !is_plain_key(longer),
{
    let rest = trimmed.skip(key.len() as int);
    let k = lemma_equals_follows(rest);
    let last = longer.len() - 1;
    if key.len() + k < longer.len() {
        assert(longer[key.len() + k] == trimmed[key.len() + k]);
        assert(rest[k] == trimmed[key.len() + k]);
        assert(longer.contains('='));
    } else {
        assert(rest[last - key.len()] == trimmed[last]);
        assert(longer[last] == trimmed[last]);
        assert(text::is_white_space(longer.last()));
    }
}

/// Where the first equals sign stands, if only white space stands before it.
proof fn lemma_equals_follows(s: Seq<char>) -> (k: int)
    requires
        text::trim_start(s).len() > 0,
        text::trim_start(s)[0] == '=',
    ensures
        0 <= k < s.len(),
        s[k] == '=',
        forall|j: int| 0 <= j < k ==> text::is_white_space(#[trigger] s[j]),
    decreases s.len(),
{
    if s.len() > 0 && text::is_white_space(s[0]) {
        let rest = s.drop_first();
        let inner = lemma_equals_follows(rest);
        assert(s[inner + 1] == rest[inner]);
        assert forall|j: int| 0 <= j < inner + 1 implies text::is_white_space(#[trigger] s[j]) by {
            if j > 0 {
                assert(s[j] == rest[j - 1]);
            }
        }
        inner + 1
    } else {
        0
    }
}

/// Setting one key does not change what is read for another.
pub proof fn set_keeps_others(
    lines: Seq<Seq<char>>,
    key: Seq<char>,
    value: Seq<char>,
    other: Seq<char>,
)
    requires
        is_plain_key(key),
        is_plain_key(other),
        key != other,
    ensures
        nixconf::get_in(nixconf::set_in(lines, key, value), other) == nixconf::get_in(lines, other),
{
    let at = lemma_set_shape(lines, key, value);
    let line = nixconf::setting_line(key, value);
    setting_of_line(key, value);
    if nixconf::setting(line, other) is Some {
        lemma_one_key(line, key, other);
    }
    if at < lines.len() {
        if nixconf::setting(lines[at], other) is Some {
            lemma_one_key(lines[at], key, other);
        }
        lemma_get_ignores(lines, at, line, other);
    } else {
        assert(lines.push(line).drop_last() == lines);
    }
}

proof fn lemma_get_ignores(lines: Seq<Seq<char>>, at: int, line: Seq<char>, key: Seq<char>)
    requires
        0 <= at < lines.len(),
        nixconf::setting(lines[at], key) is None,
        nixconf::setting(line, key) is None,
    ensures
        nixconf::get_in(lines.update(at, line), key) == nixconf::get_in(lines, key),
    decreases lines.len(),
{
    let after = lines.update(at, line);
    if at == lines.len() - 1 {
        assert(after.drop_last() == lines.drop_last());
    } else {
        assert(after.drop_last() == lines.drop_last().update(at, line));
        lemma_get_ignores(lines.drop_last(), at, line, key);
    }
}

/// A removed key is not set.
pub proof fn get_after_remove(lines: Seq<Seq<char>>, key: Seq<char>)
    ensures
        nixconf::get_in(nixconf::remove_in(lines, key), key) is None,
        forall|i: int|
            0 <= i < nixconf::remove_in(lines, key).len() ==> nixconf::setting(
                #[trigger] nixconf::remove_in(lines, key)[i],
                key,
            ) is None,
    decreases lines.len(),
{
    if lines.len() > 0 {
        get_after_remove(lines.drop_last(), key);
    }
    lemma_get_none(nixconf::remove_in(lines, key), key);
}

/// Removing one key does not change what is read for another.
pub proof fn remove_keeps_others(lines: Seq<Seq<char>>, key: Seq<char>, other: Seq<char>)
    requires
        is_plain_key(key),
        is_plain_key(other),
        key != other,
    ensures
        nixconf::get_in(nixconf::remove_in(lines, key), other) == nixconf::get_in(lines, other),
    decreases lines.len(),
{
    if lines.len() > 0 {
        remove_keeps_others(lines.drop_last(), key, other);
        if nixconf::setting(lines.last(), key) is Some {
            if nixconf::setting(lines.last(), other) is Some {
                lemma_one_key(lines.last(), key, other);
            }
        } else {
            let kept = nixconf::remove_in(lines.drop_last(), key);
            assert(kept.push(lines.last()).drop_last() == kept);
        }
    }
}

/// A value that is added to a list stands at its end, behind what was there; a
/// list that has the value already keeps its values.
pub proof fn list_after_add(lines: Seq<Seq<char>>, key: Seq<char>, value: Seq<char>)
    requires
        starts_plain(key),
        text::is_word(value),
    ensures
        nixconf::list_in(nixconf::add_in(lines, key, value), key) == if nixconf::list_in(
            lines,
            key,
        ).contains(value) {
            nixconf::list_in(lines, key)
        } else {
            nixconf::list_in(lines, key).push(value)
        },
        nixconf::list_in(nixconf::add_in(lines, key, value), key).contains(value),
{
    let list = nixconf::list_in(lines, key);
    if !list.contains(value) {
        let existing = match nixconf::get_in(lines, key) {
            Some(v) => v,
            None => seq![],
        };
        assert(text::words(existing) == list);
        text::lemma_words_of_word(value);
        if existing.len() == 0 {
            get_after_set(lines, key, value);
            text::lemma_words_of_trim(value);
            assert(list == Seq::<Seq<char>>::empty());
            assert(seq![value] == list.push(value));
        } else {
            reveal_strlit(" ");
            assert(" "@ == seq![' ']);
            let longer = existing + " "@ + value;
            get_after_set(lines, key, longer);
            text::lemma_words_of_trim(longer);
            text::lemma_words_concat(existing, ' ', value);
            assert(list + seq![value] == list.push(value));
        }
        assert(list.push(value).last() == value);
    }
}

/// Adding a value a second time changes nothing.
pub proof fn add_twice(lines: Seq<Seq<char>>, key: Seq<char>, value: Seq<char>)
    requires
        starts_plain(key),
        text::is_word(value),
    ensures
        nixconf::add_in(nixconf::add_in(lines, key, value), key, value) == nixconf::add_in(
            lines,
            key,
            value,
        ),
{
    list_after_add(lines, key, value);
}

/// A list from which a value is removed has its other values, in the same order.
pub proof fn list_after_remove(lines: Seq<Seq<char>>, key: Seq<char>, value: Seq<char>)
    requires
        starts_plain(key),
    ensures
        nixconf::list_in(nixconf::drop_in(lines, key, value), key) == nixconf::without(
            nixconf::list_in(lines, key),
            value,
        ),
        !nixconf::list_in(nixconf::drop_in(lines, key, value), key).contains(value),
{
    let list = nixconf::list_in(lines, key);
    let keep = nixconf::other_than(value);
    let kept = nixconf::without(list, value);
    match nixconf::get_in(lines, key) {
        Some(existing) => {
            if kept.len() == 0 {
                get_after_remove(lines, key);
                assert(kept == Seq::<Seq<char>>::empty());
            } else {
                text::lemma_words_are_words(existing);
                assert forall|i: int| 0 <= i < kept.len() implies text::is_word(
                    #[trigger] kept[i],
                ) by {
                    assert(kept.contains(kept[i]));
                    list.lemma_filter_contains_rev(keep, kept[i]);
                }
                let joined = text::join(kept, " "@);
                get_after_set(lines, key, joined);
                text::lemma_words_of_trim(joined);
                text::lemma_words_of_join(kept);
            }
            if kept.contains(value) {
                let i = choose|i: int| 0 <= i < kept.len() && kept[i] == value;
                assert(keep(kept[i]));
            }
        },
        None => {
            reveal(Seq::filter);
            assert(list == Seq::<Seq<char>>::empty());
        },
    }
}

/// Removing a value that was just added gives the list as it was, and all the lines where
/// none of them set the key.
pub proof fn remove_undoes_add(lines: Seq<Seq<char>>, key: Seq<char>, value: Seq<char>)
    requires
        starts_plain(key),
        text::is_word(value),
        !nixconf::list_in(lines, key).contains(value),
    ensures
        nixconf::list_in(
            nixconf::drop_in(nixconf::add_in(lines, key, value), key, value),
            key,
        ) == nixconf::list_in(lines, key),
        nixconf::get_in(lines, key) is None ==> nixconf::drop_in(
            nixconf::add_in(lines, key, value),
            key,
            value,
        ) == lines,
{
    let list = nixconf::list_in(lines, key);
    let added = nixconf::add_in(lines, key, value);
    list_after_add(lines, key, value);
    list_after_remove(added, key, value);
    let keep = nixconf::other_than(value);
    lemma_filter_all(list, keep);
    reveal(Seq::filter);
    assert(list.push(value).drop_last() == list);
    assert(list.push(value).last() == value);
    assert(!keep(value));
    if nixconf::get_in(lines, key) is None {
        let line = nixconf::setting_line(key, value);
        get_after_set(lines, key, value);
        assert(added == lines.push(line));
        assert(list.len() == 0);
        setting_of_line(key, value);
        assert(added.drop_last() == lines);
        lemma_remove_nothing(lines, key);
    }
}

/// Where no line sets a key, there is nothing to remove.
proof fn lemma_remove_nothing(lines: Seq<Seq<char>>, key: Seq<char>)
    requires
        nixconf::get_in(lines, key) is None,
    ensures
        nixconf::remove_in(lines, key) == lines,
    decreases lines.len(),
{
    if lines.len() > 0 {
        lemma_remove_nothing(lines.drop_last(), key);
        assert(lines.drop_last().push(lines.last()) == lines);
    }
}

proof fn lemma_filter_all(values: Seq<Seq<char>>, keep: spec_fn(Seq<char>) -> bool)
    requires
        forall|i: int| 0 <= i < values.len() ==> keep(#[trigger] values[i]),
    ensures
        values.filter(keep) == values,
    decreases values.len(),
{
    reveal(Seq::filter);
    if values.len() > 0 {
        lemma_filter_all(values.drop_last(), keep);
        assert(keep(values[values.len() - 1]));
        assert(values.drop_last().push(values.last()) == values);
    }
}

/// Whether each of the lines is a line: a file keeps it as it is.
pub open spec fn all_lines(lines: Seq<Seq<char>>) -> bool {
    forall|i: int| 0 <= i < lines.len() ==> text::is_line(#[trigger] lines[i])
}

/// The text that a nix.conf file is saved as has the lines that it was made from. (No
/// lines at all are saved as an empty one.) What is read for a key is the same.
pub proof fn load_after_save(lines: Seq<Seq<char>>, key: Seq<char>)
    requires
        all_lines(lines),
    ensures
        ({
            let loaded = text::lines(text::join(lines, "\n"@) + "\n"@);
            &&& lines.len() > 0 ==> loaded == lines
            &&& lines.len() == 0 ==> loaded == seq![Seq::<char>::empty()]
            &&& nixconf::get_in(loaded, key) == nixconf::get_in(lines, key)
        }),
{
    if lines.len() > 0 {
        text::lemma_lines_of_join(lines);
    } else {
        reveal_strlit("\n");
        let empty = Seq::<char>::empty();
        let loaded = text::lines(text::join(lines, "\n"@) + "\n"@);
        assert(text::join(lines, "\n"@) + "\n"@ == empty + seq!['\n'] + empty);
        text::lemma_lines_of_line(empty, empty);
        assert(loaded == seq![empty]);
        assert(text::trim(empty) == empty);
        assert(nixconf::setting(empty, key) is None) by {
            if key.is_prefix_of(empty) {
                assert(empty.skip(key.len() as int).len() == 0);
            }
        }
        assert(loaded.drop_last() == lines);
        assert(loaded.last() == empty);
    }
}

/// Setting a key to a value on one line leaves lines that a file keeps.
pub proof fn set_keeps_lines(lines: Seq<Seq<char>>, key: Seq<char>, value: Seq<char>)
    requires
        all_lines(lines),
        !key.contains('\n'),
        text::is_line(value),
    ensures
        all_lines(nixconf::set_in(lines, key, value)),
{
    let line = nixconf::setting_line(key, value);
    reveal_strlit(" = ");
    assert(!line.contains('\n')) by {
        if line.contains('\n') {
            let i = choose|i: int| 0 <= i < line.len() && line[i] == '\n';
            if i < key.len() {
                assert(key[i] == '\n');
            } else if i >= key.len() + 3 {
                assert(value[i - key.len() - 3] == '\n');
            }
        }
    }
    if value.len() > 0 {
        assert(line.last() == value.last());
    } else {
        assert(line.last() == ' ');
    }
    let at = lemma_set_shape(lines, key, value);
    let after = nixconf::set_in(lines, key, value);
    assert forall|i: int| 0 <= i < after.len() implies text::is_line(#[trigger] after[i]) by {
        if i != at {
            assert(after[i] == lines[i]);
        }
    }
}

/// Removing a key leaves lines that a file keeps.
pub proof fn remove_keeps_lines(lines: Seq<Seq<char>>, key: Seq<char>)
    requires
        all_lines(lines),
    ensures
        all_lines(nixconf::remove_in(lines, key)),
{
    let after = nixconf::remove_in(lines, key);
    assert forall|i: int| 0 <= i < after.len() implies text::is_line(#[trigger] after[i]) by {
        lemma_remove_is_part(lines, key, i);
        let k = choose|k: int| 0 <= k < lines.len() && lines[k] == after[i];
        assert(text::is_line(lines[k]));
    }
}

/// A file that an include directive was added for is included, whatever was
/// there before. The path is not empty and does not end with white space, which a
/// line would not keep.
pub proof fn included_after_add(lines: Seq<Seq<char>>, path: Seq<char>, optional: bool)
    requires
        path.len() > 0,
        !text::is_white_space(path.last()),
    ensures
        nixconf::includes_in(
            lines.push(
                if optional {
                    "!include "@ + path
                } else {
                    "include "@ + path
                },
            ),
            path,
        ),
{
    reveal_strlit("!include ");
    reveal_strlit("include ");
    let line = if optional {
        "!include "@ + path
    } else {
        "include "@ + path
    };
    assert(line[0] == '!' || line[0] == 'i');
    assert(line.last() == path.last());
    assert(text::trim(line) == line);
    assert(lines.push(line)[lines.len() as int] == line);
    assert(nixconf::includes(line, path));
}

/// The lines that stay when a key is removed are lines that were there.
proof fn lemma_remove_is_part(lines: Seq<Seq<char>>, key: Seq<char>, i: int)
    requires
        0 <= i < nixconf::remove_in(lines, key).len(),
    ensures
        lines.contains(nixconf::remove_in(lines, key)[i]),
    decreases lines.len(),
{
    let init = lines.drop_last();
    let kept = nixconf::remove_in(init, key);
    if i < kept.len() {
        lemma_remove_is_part(init, key, i);
        let k = choose|k: int| 0 <= k < init.len() && init[k] == kept[i];
        assert(lines[k] == kept[i]);
    } else {
        assert(lines[lines.len() - 1] == nixconf::remove_in(lines, key)[i]);
    }
}

/// Whether a value is none of the given ones.
pub open spec fn none_of(values: Seq<Seq<char>>) -> spec_fn(Seq<char>) -> bool {
    |v: Seq<char>| !values.contains(v)
}

/// Adding values to a list keeps what was there, and another list with all of it.
proof fn lemma_add_all(
    lines: Seq<Seq<char>>,
    key: Seq<char>,
    values: Seq<Seq<char>>,
    other: Seq<char>,
    keep: spec_fn(Seq<char>) -> bool,
)
    requires
        is_plain_key(key),
        is_plain_key(other),
        key != other,
        forall|i: int| 0 <= i < values.len() ==> text::is_word(#[trigger] values[i]),
        forall|i: int| 0 <= i < values.len() ==> !keep(#[trigger] values[i]),
    ensures
        ({
            let after = nixconf::add_all_in(lines, key, values);
            &&& nixconf::get_in(after, other) == nixconf::get_in(lines, other)
            &&& nixconf::list_in(after, key).filter(keep) == nixconf::list_in(lines, key).filter(
                keep,
            )
        }),
    decreases values.len(),
{
    if values.len() > 0 {
        let init = values.drop_last();
        let value = values.last();
        assert forall|i: int| 0 <= i < init.len() implies text::is_word(#[trigger] init[i])
            && !keep(init[i]) by {
            assert(init[i] == values[i]);
        }
        lemma_add_all(lines, key, init, other, keep);
        assert(text::is_word(values[values.len() - 1]));
        assert(!keep(values[values.len() - 1]));
        let before = nixconf::add_all_in(lines, key, init);
        let after = nixconf::add_in(before, key, value);
        list_after_add(before, key, value);
        let old_list = nixconf::list_in(before, key);
        let list = nixconf::list_in(after, key);
        let existing = match nixconf::get_in(before, key) {
            Some(v) => v,
            None => seq![],
        };
        set_keeps_others(before, key, value, other);
        set_keeps_others(before, key, existing + " "@ + value, other);
        if !old_list.contains(value) {
            reveal(Seq::filter);
            assert(old_list.push(value).drop_last() == old_list);
            assert(list.filter(keep) == old_list.filter(keep));
        }
    }
}

proof fn lemma_contains_push(values: Seq<Seq<char>>, value: Seq<char>, v: Seq<char>)
    ensures
        values.push(value).contains(v) <==> values.contains(v) || v == value,
{
    let all = values.push(value);
    assert(all[values.len() as int] == value);
    if values.contains(v) {
        let i = choose|i: int| 0 <= i < values.len() && values[i] == v;
        assert(all[i] == v);
    }
    if all.contains(v) {
        let i = choose|i: int| 0 <= i < all.len() && all[i] == v;
        if i < values.len() {
            assert(values[i] == v);
        }
    }
}

proof fn lemma_filter_twice(values: Seq<Seq<char>>, dropped: Seq<Seq<char>>, value: Seq<char>)
    ensures
        values.filter(none_of(dropped)).filter(nixconf::other_than(value)) == values.filter(
            none_of(dropped.push(value)),
        ),
    decreases values.len(),
{
    reveal(Seq::filter);
    if values.len() > 0 {
        let init = values.drop_last();
        let last = values.last();
        lemma_filter_twice(init, dropped, value);
        lemma_contains_push(dropped, value, last);
        let once = init.filter(none_of(dropped));
        if none_of(dropped)(last) {
            assert(once.push(last).drop_last() == once);
            assert(once.push(last).last() == last);
        }
    }
}

/// Removing values from a list keeps the others in it, and another list with all of it.
proof fn lemma_drop_all(
    lines: Seq<Seq<char>>,
    key: Seq<char>,
    values: Seq<Seq<char>>,
    other: Seq<char>,
)
    requires
        is_plain_key(key),
        is_plain_key(other),
        key != other,
    ensures
        ({
            let after = nixconf::drop_all_in(lines, key, values);
            &&& nixconf::get_in(after, other) == nixconf::get_in(lines, other)
            &&& nixconf::list_in(after, key) == nixconf::list_in(lines, key).filter(
                none_of(values),
            )
        }),
    decreases values.len(),
{
    let list = nixconf::list_in(lines, key);
    if values.len() == 0 {
        assert forall|i: int| 0 <= i < list.len() implies none_of(values)(#[trigger] list[i]) by {
        }
        lemma_filter_all(list, none_of(values));
    } else {
        let init = values.drop_last();
        let value = values.last();
        lemma_drop_all(lines, key, init, other);
        let before = nixconf::drop_all_in(lines, key, init);
        list_after_remove(before, key, value);
        lemma_filter_twice(list, init, value);
        assert(values == init.push(value));
        if nixconf::get_in(before, key) is Some {
            let kept = nixconf::without(nixconf::list_in(before, key), value);
            set_keeps_others(before, key, text::join(kept, " "@), other);
            remove_keeps_others(before, key, other);
        }
    }
}

/// The names of the two lists of a cache are plain and different.
proof fn lemma_cache_keys()
    ensures
        is_plain_key("substituters"@),
        is_plain_key("trusted-public-keys"@),
        "substituters"@ != "trusted-public-keys"@,
{
    reveal_strlit("substituters");
    reveal_strlit("trusted-public-keys");
    assert("substituters"@.len() == 12);
    assert("trusted-public-keys"@.len() == 19);
}

/// A list with each of the values added to its end that is not in it by then.
pub open spec fn with_each(list: Seq<Seq<char>>, values: Seq<Seq<char>>) -> Seq<Seq<char>>
    decreases values.len(),
{
    if values.len() == 0 {
        list
    } else {
        let earlier = with_each(list, values.drop_last());
        if earlier.contains(values.last()) {
            earlier
        } else {
            earlier.push(values.last())
        }
    }
}

/// A list with values added starts with the list as it was, holds the values beside what
/// it held, and has no added value twice.
pub proof fn added_values_stand_once(list: Seq<Seq<char>>, values: Seq<Seq<char>>)
    ensures
        list.len() <= with_each(list, values).len(),
        with_each(list, values).take(list.len() as int) == list,
        forall|v: Seq<char>| #[trigger]
            with_each(list, values).contains(v) <==> list.contains(v) || values.contains(v),
        forall|i: int, j: int|
            0 <= i < j < with_each(list, values).len() && list.len() <= j ==> #[trigger] with_each(
                list,
                values,
            )[i] != #[trigger] with_each(list, values)[j],
    decreases values.len(),
{
    if values.len() == 0 {
        assert(list.take(list.len() as int) == list);
        assert forall|v: Seq<char>| !values.contains(v) by {
        }
    } else {
        let init = values.drop_last();
        let value = values.last();
        added_values_stand_once(list, init);
        let earlier = with_each(list, init);
        let all = with_each(list, values);
        assert(values == init.push(value));
        assert(all.take(list.len() as int) == earlier.take(list.len() as int));
        assert forall|v: Seq<char>| #[trigger] all.contains(v) <==> list.contains(v)
            || values.contains(v) by {
            lemma_contains_push(init, value, v);
            lemma_contains_push(earlier, value, v);
            assert(earlier.contains(v) <==> list.contains(v) || init.contains(v));
        }
        assert forall|i: int, j: int|
            0 <= i < j < all.len() && list.len() <= j implies #[trigger] all[i]
            != #[trigger] all[j] by {
            if j < earlier.len() {
                assert(earlier[i] != earlier[j]);
            } else {
                assert(earlier.contains(earlier[i]));
            }
        }
    }
}

proof fn lemma_list_after_add_all(
    lines: Seq<Seq<char>>,
    key: Seq<char>,
    values: Seq<Seq<char>>,
)
    requires
        starts_plain(key),
        forall|i: int| 0 <= i < values.len() ==> text::is_word(#[trigger] values[i]),
    ensures
        nixconf::list_in(nixconf::add_all_in(lines, key, values), key) == with_each(
            nixconf::list_in(lines, key),
            values,
        ),
    decreases values.len(),
{
    if values.len() > 0 {
        let init = values.drop_last();
        assert forall|i: int| 0 <= i < init.len() implies text::is_word(#[trigger] init[i]) by {
            assert(init[i] == values[i]);
        }
        lemma_list_after_add_all(lines, key, init);
        assert(text::is_word(values[values.len() - 1]));
        list_after_add(nixconf::add_all_in(lines, key, init), key, values.last());
    }
}

/// A cache that was configured is among the substituters, and its keys are among the
/// trusted ones, each behind what was there, and only once. What is read for any other
/// key is as it was.
pub proof fn used_cache_is_configured(
    lines: Seq<Seq<char>>,
    cache_uri: Seq<char>,
    public_keys: Seq<Seq<char>>,
    other: Seq<char>,
)
    requires
        text::is_word(cache_uri),
        forall|i: int| 0 <= i < public_keys.len() ==> text::is_word(#[trigger] public_keys[i]),
        is_plain_key(other),
    ensures
        ({
            let after = nixconf::use_in(lines, cache_uri, public_keys);
            let subs = nixconf::list_in(after, "substituters"@);
            let trusted = nixconf::list_in(after, "trusted-public-keys"@);
            &&& subs == with_each(nixconf::list_in(lines, "substituters"@), seq![cache_uri])
            &&& trusted == with_each(
                nixconf::list_in(lines, "trusted-public-keys"@),
                public_keys,
            )
            &&& subs.contains(cache_uri)
            &&& forall|i: int|
                0 <= i < public_keys.len() ==> trusted.contains(#[trigger] public_keys[i])
            &&& other != "substituters"@ && other != "trusted-public-keys"@ ==> nixconf::get_in(
                after,
                other,
            ) == nixconf::get_in(lines, other)
        }),
{
    lemma_cache_keys();
    let s = "substituters"@;
    let t = "trusted-public-keys"@;
    let uris = seq![cache_uri];
    let first = nixconf::add_in(lines, s, cache_uri);
    reveal_with_fuel(nixconf::add_all_in, 2);
    assert(uris.drop_last().len() == 0);
    assert(first == nixconf::add_all_in(lines, s, uris));
    lemma_add_all(lines, s, uris, t, none_of(uris));
    lemma_add_all(first, t, public_keys, s, none_of(public_keys));
    lemma_list_after_add_all(lines, s, uris);
    lemma_list_after_add_all(first, t, public_keys);
    added_values_stand_once(nixconf::list_in(lines, s), uris);
    added_values_stand_once(nixconf::list_in(lines, t), public_keys);
    assert(uris[0] == cache_uri);
    assert(uris.contains(cache_uri));
    assert forall|i: int| 0 <= i < public_keys.len() implies nixconf::list_in(
        nixconf::use_in(lines, cache_uri, public_keys),
        t,
    ).contains(#[trigger] public_keys[i]) by {
        assert(public_keys.contains(public_keys[i]));
    }
    if other != s && other != t {
        lemma_add_all(lines, s, uris, other, none_of(uris));
        lemma_add_all(first, t, public_keys, other, none_of(public_keys));
    }
}

/// Configuring a cache a second time changes nothing.
pub proof fn use_twice(
    lines: Seq<Seq<char>>,
    cache_uri: Seq<char>,
    public_keys: Seq<Seq<char>>,
)
    requires
        text::is_word(cache_uri),
        forall|i: int| 0 <= i < public_keys.len() ==> text::is_word(#[trigger] public_keys[i]),
    ensures
        ({
            let used = nixconf::use_in(lines, cache_uri, public_keys);
            nixconf::use_in(used, cache_uri, public_keys) == used
        }),
{
    let used = nixconf::use_in(lines, cache_uri, public_keys);
    lemma_cache_keys();
    used_cache_is_configured(lines, cache_uri, public_keys, "substituters"@);
    lemma_add_nothing(used, "trusted-public-keys"@, public_keys);
}

/// Adding values that a list has already changes nothing.
proof fn lemma_add_nothing(lines: Seq<Seq<char>>, key: Seq<char>, values: Seq<Seq<char>>)
    requires
        forall|i: int|
            0 <= i < values.len() ==> nixconf::list_in(lines, key).contains(#[trigger] values[i]),
    ensures
        nixconf::add_all_in(lines, key, values) == lines,
    decreases values.len(),
{
    if values.len() > 0 {
        let init = values.drop_last();
        assert forall|i: int| 0 <= i < init.len() implies nixconf::list_in(lines, key).contains(
            #[trigger] init[i],
        ) by {
            assert(init[i] == values[i]);
        }
        lemma_add_nothing(lines, key, init);
        assert(nixconf::list_in(lines, key).contains(values[values.len() - 1]));
    }
}

/// The lines that do not set a key are the same after it was set.
proof fn lemma_set_keeps_rest(lines: Seq<Seq<char>>, key: Seq<char>, value: Seq<char>)
    requires
        starts_plain(key),
    ensures
        nixconf::remove_in(nixconf::set_in(lines, key, value), key) == nixconf::remove_in(
            lines,
            key,
        ),
{
    let at = lemma_set_shape(lines, key, value);
    let line = nixconf::setting_line(key, value);
    setting_of_line(key, value);
    if at < lines.len() {
        lemma_remove_ignores(lines, at, line, key);
    } else {
        assert(lines.push(line).drop_last() == lines);
    }
}

proof fn lemma_remove_ignores(lines: Seq<Seq<char>>, at: int, line: Seq<char>, key: Seq<char>)
    requires
        0 <= at < lines.len(),
        nixconf::setting(lines[at], key) is Some,
        nixconf::setting(line, key) is Some,
    ensures
        nixconf::remove_in(lines.update(at, line), key) == nixconf::remove_in(lines, key),
    decreases lines.len(),
{
    let after = lines.update(at, line);
    if at == lines.len() - 1 {
        assert(after.drop_last() == lines.drop_last());
    } else {
        assert(after.drop_last() == lines.drop_last().update(at, line));
        lemma_remove_ignores(lines.drop_last(), at, line, key);
    }
}

proof fn lemma_add_all_keeps_rest(
    lines: Seq<Seq<char>>,
    key: Seq<char>,
    values: Seq<Seq<char>>,
)
    requires
        starts_plain(key),
    ensures
        nixconf::remove_in(nixconf::add_all_in(lines, key, values), key) == nixconf::remove_in(
            lines,
            key,
        ),
    decreases values.len(),
{
    if values.len() > 0 {
        let before = nixconf::add_all_in(lines, key, values.drop_last());
        lemma_add_all_keeps_rest(lines, key, values.drop_last());
        let existing = match nixconf::get_in(before, key) {
            Some(v) => v,
            None => seq![],
        };
        lemma_set_keeps_rest(before, key, values.last());
        lemma_set_keeps_rest(before, key, existing + " "@ + values.last());
    }
}

proof fn lemma_drop_all_keeps_rest(
    lines: Seq<Seq<char>>,
    key: Seq<char>,
    values: Seq<Seq<char>>,
)
    requires
        starts_plain(key),
    ensures
        nixconf::remove_in(nixconf::drop_all_in(lines, key, values), key) == nixconf::remove_in(
            lines,
            key,
        ),
    decreases values.len(),
{
    if values.len() > 0 {
        let before = nixconf::drop_all_in(lines, key, values.drop_last());
        lemma_drop_all_keeps_rest(lines, key, values.drop_last());
        let kept = nixconf::without(nixconf::list_in(before, key), values.last());
        lemma_set_keeps_rest(before, key, text::join(kept, " "@));
        get_after_remove(before, key);
        lemma_remove_nothing(nixconf::remove_in(before, key), key);
    }
}

/// Two keys can be removed in either order.
proof fn lemma_remove_commutes(lines: Seq<Seq<char>>, a: Seq<char>, b: Seq<char>)
    ensures
        nixconf::remove_in(nixconf::remove_in(lines, a), b) == nixconf::remove_in(
            nixconf::remove_in(lines, b),
            a,
        ),
    decreases lines.len(),
{
    if lines.len() > 0 {
        let init = lines.drop_last();
        lemma_remove_commutes(init, a, b);
        let without_a = nixconf::remove_in(init, a);
        let without_b = nixconf::remove_in(init, b);
        assert(without_a.push(lines.last()).drop_last() == without_a);
        assert(without_b.push(lines.last()).drop_last() == without_b);
    }
}

/// The lines that set neither the substituters nor the trusted keys.
pub open spec fn other_lines(lines: Seq<Seq<char>>) -> Seq<Seq<char>> {
    nixconf::remove_in(nixconf::remove_in(lines, "substituters"@), "trusted-public-keys"@)
}

/// All other lines stay as they are, in the same order, when a cache is configured or
/// removed.
pub proof fn other_lines_stay(
    lines: Seq<Seq<char>>,
    cache_uri: Seq<char>,
    public_keys: Seq<Seq<char>>,
)
    ensures
        other_lines(nixconf::use_in(lines, cache_uri, public_keys)) == other_lines(lines),
        other_lines(nixconf::unuse_in(lines, cache_uri, public_keys)) == other_lines(lines),
{
    lemma_cache_keys();
    let s = "substituters"@;
    let t = "trusted-public-keys"@;
    let uris = seq![cache_uri];
    assert(uris.drop_last().len() == 0);
    reveal_with_fuel(nixconf::add_all_in, 2);
    reveal_with_fuel(nixconf::drop_all_in, 2);
    let added = nixconf::add_in(lines, s, cache_uri);
    assert(added == nixconf::add_all_in(lines, s, uris));
    lemma_add_all_keeps_rest(lines, s, uris);
    lemma_add_all_keeps_rest(added, t, public_keys);
    lemma_remove_commutes(added, s, t);
    lemma_remove_commutes(nixconf::use_in(lines, cache_uri, public_keys), s, t);
    let dropped = nixconf::drop_in(lines, s, cache_uri);
    assert(dropped == nixconf::drop_all_in(lines, s, uris));
    lemma_drop_all_keeps_rest(lines, s, uris);
    lemma_drop_all_keeps_rest(dropped, t, public_keys);
    lemma_remove_commutes(dropped, s, t);
    lemma_remove_commutes(nixconf::unuse_in(lines, cache_uri, public_keys), s, t);
}

/// A cache that was removed is not among the substituters, and its keys are not among
/// the trusted ones. What else was there stays, in the same order.
pub proof fn removed_cache_is_gone(
    lines: Seq<Seq<char>>,
    cache_uri: Seq<char>,
    public_keys: Seq<Seq<char>>,
)
    requires
    ensures
        ({
            let after = nixconf::unuse_in(lines, cache_uri, public_keys);
            &&& nixconf::list_in(after, "substituters"@) == nixconf::without(
                nixconf::list_in(lines, "substituters"@),
                cache_uri,
            )
            &&& nixconf::list_in(after, "trusted-public-keys"@) == nixconf::list_in(
                lines,
                "trusted-public-keys"@,
            ).filter(none_of(public_keys))
        }),
{
    lemma_cache_keys();
    let s = "substituters"@;
    let t = "trusted-public-keys"@;
    let uris = seq![cache_uri];
    let first = nixconf::drop_in(lines, s, cache_uri);
    lemma_drop_all(lines, s, uris, t);
    reveal_with_fuel(nixconf::drop_all_in, 2);
    assert(uris.drop_last().len() == 0);
    assert(first == nixconf::drop_all_in(lines, s, uris));
    list_after_remove(lines, s, cache_uri);
    lemma_drop_all(first, t, public_keys, s);
}

/// Removing a cache that was just configured gives both lists as they were, where they
/// held neither the cache nor one of its keys.
pub proof fn remove_undoes_use(
    lines: Seq<Seq<char>>,
    cache_uri: Seq<char>,
    public_keys: Seq<Seq<char>>,
)
    requires
        text::is_word(cache_uri),
        forall|i: int| 0 <= i < public_keys.len() ==> text::is_word(#[trigger] public_keys[i]),
        !nixconf::list_in(lines, "substituters"@).contains(cache_uri),
        forall|i: int|
            0 <= i < public_keys.len() ==> !nixconf::list_in(
                lines,
                "trusted-public-keys"@,
            ).contains(#[trigger] public_keys[i]),
    ensures
        ({
            let used = nixconf::use_in(lines, cache_uri, public_keys);
            let after = nixconf::unuse_in(used, cache_uri, public_keys);
            &&& nixconf::list_in(after, "substituters"@) == nixconf::list_in(
                lines,
                "substituters"@,
            )
            &&& nixconf::list_in(after, "trusted-public-keys"@) == nixconf::list_in(
                lines,
                "trusted-public-keys"@,
            )
        }),
{
    lemma_cache_keys();
    let s = "substituters"@;
    let t = "trusted-public-keys"@;
    let uris = seq![cache_uri];
    let first = nixconf::add_in(lines, s, cache_uri);
    let used = nixconf::use_in(lines, cache_uri, public_keys);
    removed_cache_is_gone(used, cache_uri, public_keys);
    lemma_add_all(lines, s, uris, t, none_of(uris));
    reveal_with_fuel(nixconf::add_all_in, 2);
    assert(uris.drop_last().len() == 0);
    assert(first == nixconf::add_all_in(lines, s, uris));
    lemma_add_all(first, t, public_keys, s, none_of(public_keys));
    list_after_add(lines, s, cache_uri);
    let subs = nixconf::list_in(lines, s);
    let other = nixconf::other_than(cache_uri);
    assert(nixconf::list_in(used, s) == subs.push(cache_uri));
    assert(subs.push(cache_uri).filter(other) == subs.filter(other)) by {
        reveal(Seq::filter);
        assert(subs.push(cache_uri).drop_last() == subs);
        assert(subs.push(cache_uri).last() == cache_uri);
    }
    lemma_filter_all(subs, other);
    let trusted = nixconf::list_in(lines, t);
    assert forall|i: int| 0 <= i < trusted.len() implies none_of(public_keys)(
        #[trigger] trusted[i],
    ) by {
        if public_keys.contains(trusted[i]) {
            let k = choose|k: int| 0 <= k < public_keys.len() && public_keys[k] == trusted[i];
            assert(trusted.contains(public_keys[k]));
        }
    }
    lemma_filter_all(trusted, none_of(public_keys));
}


/// The fixed lines of a NixOS module are lines.
proof fn lemma_module_frame()
    ensures
        text::is_line("# WARNING: this file is generated by cachix. Do not edit."@),
        text::is_line("{"@),
        text::is_line("  nix.settings = {"@),
        text::is_line("    substituters = ["@),
        text::is_line("    ];"@),
        text::is_line("    trusted-public-keys = ["@),
        text::is_line("  };"@),
        text::is_line("}"@),
{
    reveal_strlit("# WARNING: this file is generated by cachix. Do not edit.");
    reveal_strlit("{");
    reveal_strlit("  nix.settings = {");
    reveal_strlit("    substituters = [");
    reveal_strlit("    ];");
    reveal_strlit("    trusted-public-keys = [");
    reveal_strlit("  };");
    reveal_strlit("}");
}

/// An item of a list of a NixOS module is a line where it has no line end in it.
proof fn lemma_module_item(item: Seq<char>)
    requires
        !item.contains('\n'),
    ensures
        text::is_line(nixconf::module_item(item)),
{
    let line = nixconf::module_item(item);
    reveal_strlit("      \"");
    reveal_strlit("\"");
    assert(line.last() == '"');
    if line.contains('\n') {
        let i = choose|i: int| 0 <= i < line.len() && line[i] == '\n';
        if 7 <= i < 7 + item.len() {
            assert(item[i - 7] == '\n');
        }
    }
}

/// The NixOS module of a cache lists the address of the cache as its one substituter,
/// and the public keys of the cache, in their order, as its trusted ones.
pub proof fn module_lists_the_cache(cache_uri: Seq<char>, public_keys: Seq<Seq<char>>)
    requires
        !cache_uri.contains('\n'),
        forall|i: int| 0 <= i < public_keys.len() ==> !(#[trigger] public_keys[i]).contains('\n'),
    ensures
        ({
            let lines = text::lines(
                text::join(nixconf::module_lines(cache_uri, public_keys), "\n"@) + "\n"@,
            );
            let n = public_keys.len() as int;
            &&& lines.len() == n + 10
            &&& lines[3] == "    substituters = ["@
            &&& lines[4] == nixconf::module_item(cache_uri)
            &&& lines[5] == "    ];"@
            &&& lines[6] == "    trusted-public-keys = ["@
            &&& forall|i: int|
                0 <= i < n ==> #[trigger] lines[7 + i] == nixconf::module_item(public_keys[i])
            &&& lines[7 + n] == "    ];"@
        }),
{
    let lines = nixconf::module_lines(cache_uri, public_keys);
    let n = public_keys.len() as int;
    lemma_module_frame();
    lemma_module_item(cache_uri);
    assert forall|i: int| 0 <= i < lines.len() implies text::is_line(#[trigger] lines[i]) by {
        if 7 <= i < 7 + n {
            let key = public_keys[i - 7];
            lemma_module_item(key);
            assert(lines[i] == nixconf::module_item(key));
        }
    }
    load_after_save(lines, Seq::empty());
}

/// A line that is made of the key, an equals sign and a value gives the key that value, all of
/// it but the white space around it, whatever white space stands around the key.
pub proof fn line_sets_its_key(
    before: Seq<char>,
    key: Seq<char>,
    gap: Seq<char>,
    value: Seq<char>,
)
    requires
        text::is_blank(before),
        text::is_blank(gap),
        starts_plain(key),
    ensures
        nixconf::setting(before + key + gap + seq!['='] + value, key) == Some(text::trim(value)),
{
    let none = Seq::<char>::empty();
    let head = before + key + gap;
    let line = head + seq!['='] + value;
    text::lemma_trim_start_at(head, '=', value);
    let (kept, left) = if key.len() > 0 {
        (key + gap, gap)
    } else {
        (none, none)
    };
    assert(text::trim_start(head) == kept) by {
        if key.len() > 0 {
            assert(head == before + (key + gap));
            assert((key + gap)[0] == key[0]);
            text::start_is_trimmed(before, key + gap);
        } else {
            assert(text::is_blank(head)) by {
                assert forall|i: int| 0 <= i < head.len() implies text::is_white_space(
                    #[trigger] head[i],
                ) by {
                    if i < before.len() {
                        assert(head[i] == before[i]);
                    } else {
                        assert(head[i] == gap[i - before.len()]);
                    }
                }
            }
            assert(head + none == head);
            text::start_is_trimmed(head, none);
        }
    }
    text::lemma_trim_end_at(kept, '=', value);
    let trimmed = text::trim(line);
    let tail = text::trim_end(value);
    assert(trimmed == kept + seq!['='] + tail);
    assert(trimmed.subrange(0, key.len() as int) == key);
    let rest = trimmed.skip(key.len() as int);
    assert(rest == left + seq!['='] + tail);
    text::lemma_trim_start_at(left, '=', tail);
    assert(left + none == left);
    text::start_is_trimmed(left, none);
    let from_sign = text::trim_start(rest);
    assert(from_sign == seq!['='] + tail);
    assert(from_sign.drop_first() == tail);
    text::lemma_trim_of_trim_end(value);
}

proof fn lemma_start_blank(s: Seq<char>) -> (blank: Seq<char>)
    ensures
        text::is_blank(blank),
        s == blank + text::trim_start(s),
    decreases s.len(),
{
    if s.len() > 0 && text::is_white_space(s[0]) {
        let rest = lemma_start_blank(s.drop_first());
        let blank = seq![s[0]] + rest;
        assert forall|i: int| 0 <= i < blank.len() implies text::is_white_space(
            #[trigger] blank[i],
        ) by {
            if i > 0 {
                assert(blank[i] == rest[i - 1]);
            }
        }
        assert(s == seq![s[0]] + s.drop_first());
        blank
    } else {
        assert(s == Seq::<char>::empty() + s);
        Seq::empty()
    }
}

proof fn lemma_end_blank(s: Seq<char>) -> (blank: Seq<char>)
    ensures
        s == text::trim_end(s) + blank,
    decreases s.len(),
{
    if s.len() > 0 && text::is_white_space(s.last()) {
        let rest = lemma_end_blank(s.drop_last());
        let blank = rest.push(s.last());
        assert(s == s.drop_last().push(s.last()));
        blank
    } else {
        assert(s == s + Seq::<char>::empty());
        Seq::empty()
    }
}

/// A line gives a key a value only if the key stands in it, with an equals sign behind it and
/// nothing but white space before and between them.
pub proof fn set_line_holds_the_key(line: Seq<char>, key: Seq<char>)
    requires
        nixconf::setting(line, key) is Some,
    ensures
        exists|before: Seq<char>, gap: Seq<char>, value: Seq<char>|
            text::is_blank(before) && text::is_blank(gap) && line == #[trigger] (before + key + gap
                + seq!['='] + value),
{
    let before = lemma_start_blank(line);
    let started = text::trim_start(line);
    let behind = lemma_end_blank(started);
    let trimmed = text::trim(line);
    text::prefix_is_taken_away(trimmed, key, trimmed.skip(key.len() as int));
    let rest = trimmed.skip(key.len() as int);
    let gap = lemma_start_blank(rest);
    let from_sign = text::trim_start(rest);
    let value = from_sign.drop_first() + behind;
    assert(from_sign == seq!['='] + from_sign.drop_first());
    assert(line == before + key + gap + seq!['='] + value);
}

/// The value of a key is that of the last line that sets it, wherever that stands, and there
/// is none exactly if no line sets it.
pub proof fn last_line_of_a_key_counts(
    before: Seq<Seq<char>>,
    line: Seq<char>,
    behind: Seq<Seq<char>>,
    key: Seq<char>,
    value: Seq<char>,
)
    requires
        nixconf::setting(line, key) == Some(value),
        forall|i: int|
            0 <= i < behind.len() ==> nixconf::setting(#[trigger] behind[i], key) is None,
    ensures
        nixconf::get_in(before + seq![line] + behind, key) == Some(value),
        nixconf::get_in(behind, key) is None,
{
    let all = before + seq![line] + behind;
    let n = before.len() as int;
    assert(all[n] == line);
    assert forall|j: int| n < j < all.len() implies nixconf::setting(#[trigger] all[j], key)
        is None by {
        assert(all[j] == behind[j - n - 1]);
    }
    lemma_get_at(all, key, n);
    lemma_get_none(behind, key);
}

/// To set a key writes one line: it takes the place of the last line that sets the key, and
/// where there is none, stands at the end. All other lines stay where they are.
pub proof fn set_writes_one_line(
    before: Seq<Seq<char>>,
    line: Seq<char>,
    behind: Seq<Seq<char>>,
    key: Seq<char>,
    value: Seq<char>,
)
    requires
        nixconf::setting(line, key) is Some,
        forall|i: int|
            0 <= i < behind.len() ==> nixconf::setting(#[trigger] behind[i], key) is None,
    ensures
        nixconf::set_in(before + seq![line] + behind, key, value) == before + seq![
            key + " = "@ + value,
        ] + behind,
        nixconf::set_in(behind, key, value) == behind.push(key + " = "@ + value),
{
    let all = before + seq![line] + behind;
    let n = before.len() as int;
    let new = key + " = "@ + value;
    assert(all[n] == line);
    assert forall|j: int| n < j < all.len() implies nixconf::setting(#[trigger] all[j], key)
        is None by {
        assert(all[j] == behind[j - n - 1]);
    }
    nixconf::lemma_set_at(all, key, value, n);
    assert(all.update(n, new) == before + seq![new] + behind);
    nixconf::lemma_set_at(behind, key, value, behind.len() as int);
}

/// To remove a key takes away exactly the lines that set it; all others stay in their order.
pub proof fn remove_takes_the_lines_of_the_key(
    first: Seq<Seq<char>>,
    second: Seq<Seq<char>>,
    line: Seq<char>,
    key: Seq<char>,
)
    ensures
        nixconf::remove_in(first + second, key) == nixconf::remove_in(first, key)
            + nixconf::remove_in(second, key),
        nixconf::remove_in(seq![line], key) == if nixconf::setting(line, key) is Some {
            Seq::empty()
        } else {
            seq![line]
        },
    decreases second.len(),
{
    let none = Seq::<Seq<char>>::empty();
    assert(seq![line].drop_last() == none && seq![line].last() == line);
    assert(nixconf::remove_in(none, key) == none);
    assert(none.push(line) == seq![line]);
    if second.len() == 0 {
        assert(first + second == first);
        assert(nixconf::remove_in(first, key) + nixconf::remove_in(second, key)
            == nixconf::remove_in(first, key));
    } else {
        remove_takes_the_lines_of_the_key(first, second.drop_last(), line, key);
        assert((first + second).drop_last() == first + second.drop_last());
        assert((first + second).last() == second.last());
        assert(nixconf::remove_in(first + second, key) == nixconf::remove_in(first, key)
            + nixconf::remove_in(second, key));
    }
}

/// A value that is in a list is not added again. Another is written behind the values that
/// are there, or alone where there are none; the lines that do not set the key stay.
pub proof fn value_is_added_behind_the_others(
    lines: Seq<Seq<char>>,
    key: Seq<char>,
    value: Seq<char>,
)
    requires
        starts_plain(key),
    ensures
        nixconf::list_in(lines, key).contains(value) ==> nixconf::add_in(lines, key, value)
            == lines,
        !nixconf::list_in(lines, key).contains(value) ==> {
            let after = nixconf::get_in(nixconf::add_in(lines, key, value), key);
            let before = nixconf::get_in(lines, key);
            &&& before is None || before->0.len() == 0 ==> after == Some(text::trim(value))
            &&& before is Some && before->0.len() > 0 ==> after == Some(
                text::trim(before->0 + " "@ + value),
            )
        },
        nixconf::remove_in(nixconf::add_in(lines, key, value), key) == nixconf::remove_in(
            lines,
            key,
        ),
        nixconf::add_in(lines, key, value).len() == lines.len() + if nixconf::get_in(
            lines,
            key,
        ) is None && !(nixconf::list_in(lines, key).contains(value)) {
            1int
        } else {
            0int
        },
{
    let existing = match nixconf::get_in(lines, key) {
        Some(v) => v,
        None => seq![],
    };
    assert(text::words(Seq::<char>::empty()) == Seq::<Seq<char>>::empty());
    assert(nixconf::list_in(lines, key) == text::words(existing));
    get_after_set(lines, key, value);
    get_after_set(lines, key, existing + " "@ + value);
    lemma_set_keeps_rest(lines, key, value);
    lemma_set_keeps_rest(lines, key, existing + " "@ + value);
    let at = lemma_last_setting(lines, key);
    nixconf::lemma_set_at(lines, key, value, at);
    nixconf::lemma_set_at(lines, key, existing + " "@ + value, at);
}

/// A value that is removed from a list leaves the other values, in their order with a space
/// between each two; with the last value the setting goes, and a list that is not set stays
/// so. The lines that do not set the key stay.
pub proof fn other_values_are_left(lines: Seq<Seq<char>>, key: Seq<char>, value: Seq<char>)
    requires
        starts_plain(key),
    ensures
        ({
            let after = nixconf::drop_in(lines, key, value);
            let left = nixconf::list_in(lines, key).filter(|v: Seq<char>| v != value);
            &&& nixconf::get_in(lines, key) is None ==> after == lines
            &&& left.len() == 0 ==> nixconf::get_in(after, key) is None
            &&& left.len() > 0 ==> nixconf::get_in(after, key) == Some(
                text::trim(text::join(left, " "@)),
            )
            &&& nixconf::remove_in(after, key) == nixconf::remove_in(lines, key)
        }),
{
    let left = nixconf::list_in(lines, key).filter(|v: Seq<char>| v != value);
    assert(nixconf::other_than(value) =~= (|v: Seq<char>| v != value));
    assert(nixconf::without(nixconf::list_in(lines, key), value) == left);
    get_after_set(lines, key, text::join(left, " "@));
    get_after_remove(lines, key);
    lemma_set_keeps_rest(lines, key, text::join(left, " "@));
    lemma_remove_nothing(nixconf::remove_in(lines, key), key);
}

/// Several values are added to a list one after the other, in their order, and so they are
/// removed.
pub proof fn values_come_one_after_the_other(
    lines: Seq<Seq<char>>,
    key: Seq<char>,
    first: Seq<Seq<char>>,
    second: Seq<Seq<char>>,
    value: Seq<char>,
)
    ensures
        nixconf::add_all_in(lines, key, Seq::empty()) == lines,
        nixconf::add_all_in(lines, key, seq![value]) == nixconf::add_in(lines, key, value),
        nixconf::add_all_in(lines, key, first + second) == nixconf::add_all_in(
            nixconf::add_all_in(lines, key, first),
            key,
            second,
        ),
        nixconf::drop_all_in(lines, key, Seq::empty()) == lines,
        nixconf::drop_all_in(lines, key, seq![value]) == nixconf::drop_in(lines, key, value),
        nixconf::drop_all_in(lines, key, first + second) == nixconf::drop_all_in(
            nixconf::drop_all_in(lines, key, first),
            key,
            second,
        ),
    decreases second.len(),
{
    let none = Seq::<Seq<char>>::empty();
    assert(nixconf::add_all_in(lines, key, none) == lines);
    assert(nixconf::drop_all_in(lines, key, none) == lines);
    assert(seq![value].drop_last() == none && seq![value].last() == value);
    if second.len() == 0 {
        assert(first + second == first);
    } else {
        values_come_one_after_the_other(lines, key, first, second.drop_last(), value);
        assert((first + second).drop_last() == first + second.drop_last());
        assert((first + second).last() == second.last());
    }
}

/// A cache is configured by its address among the substituters and by its public keys among
/// the trusted ones, and removed by taking the same out again.
pub proof fn cache_is_an_address_and_keys(
    lines: Seq<Seq<char>>,
    cache_uri: Seq<char>,
    public_keys: Seq<Seq<char>>,
)
    ensures
        nixconf::use_in(lines, cache_uri, public_keys) == nixconf::add_all_in(
            nixconf::add_all_in(lines, "substituters"@, seq![cache_uri]),
            "trusted-public-keys"@,
            public_keys,
        ),
        nixconf::unuse_in(lines, cache_uri, public_keys) == nixconf::drop_all_in(
            nixconf::drop_all_in(lines, "substituters"@, seq![cache_uri]),
            "trusted-public-keys"@,
            public_keys,
        ),
{
    let none = Seq::<Seq<char>>::empty();
    values_come_one_after_the_other(lines, "substituters"@, none, none, cache_uri);
}

/// A line includes a file exactly if it is "include " or "!include " and the whole path, with
/// nothing but white space around.
pub proof fn include_lines(
    before: Seq<char>,
    path: Seq<char>,
    behind: Seq<char>,
    line: Seq<char>,
)
    requires
        text::is_blank(before),
        text::is_blank(behind),
        path.len() > 0,
        !text::is_white_space(path.last()),
    ensures
        nixconf::includes(before + ("include "@ + path) + behind, path),
        nixconf::includes(before + ("!include "@ + path) + behind, path),
        nixconf::includes(line, path) <==> text::trim(line) == "include "@ + path || text::trim(
            line,
        ) == "!include "@ + path,
{
    reveal_strlit("include ");
    reveal_strlit("!include ");
    let plain = "include "@ + path;
    let optional = "!include "@ + path;
    assert(plain[0] == 'i' && optional[0] == '!');
    assert(plain.last() == path.last() && optional.last() == path.last());
    text::both_ends_are_trimmed(before, plain, behind);
    text::both_ends_are_trimmed(before, optional, behind);
}

/// The lines of a NixOS module, one by one: the whole address of the cache in quotes is its
/// only substituter, and each of its keys in quotes a trusted key, in their order.
pub proof fn module_line_by_line(cache_uri: Seq<char>, public_keys: Seq<Seq<char>>)
    ensures
        ({
            let lines = nixconf::module_lines(cache_uri, public_keys);
            let n = public_keys.len() as int;
            &&& lines.len() == n + 10
            &&& lines[0] == "# WARNING: this file is generated by cachix. Do not edit."@
            &&& lines[1] == "{"@
            &&& lines[2] == "  nix.settings = {"@
            &&& lines[3] == "    substituters = ["@
            &&& lines[4] == "      \""@ + cache_uri + "\""@
            &&& lines[5] == "    ];"@
            &&& lines[6] == "    trusted-public-keys = ["@
            &&& forall|i: int|
                0 <= i < n ==> lines[7 + i] == "      \""@ + #[trigger] public_keys[i] + "\""@
            &&& lines[7 + n] == "    ];"@
            &&& lines[8 + n] == "  };"@
            &&& lines[9 + n] == "}"@
        }),
{
}

/// The values of a list are the words of its text.
pub proof fn list_is_the_words_of_the_value(lines: Seq<Seq<char>>, key: Seq<char>)
    ensures
        nixconf::get_in(lines, key) is None ==> nixconf::list_in(lines, key).len() == 0,
        nixconf::get_in(lines, key) is Some ==> nixconf::list_in(lines, key) == text::words(
            nixconf::get_in(lines, key)->0,
        ),
        nixconf::other_than(key)(key) == false,
        forall|v: Seq<char>| v != key ==> #[trigger] nixconf::other_than(key)(v),
{
}

/// A file is included exactly if one of the lines, wherever it stands, includes it.
pub proof fn any_line_may_include(lines: Seq<Seq<char>>, path: Seq<char>)
    ensures
        nixconf::includes_in(lines, path) <==> exists|i: int|
            0 <= i < lines.len() && (text::trim(#[trigger] lines[i]) == "include "@ + path
                || text::trim(lines[i]) == "!include "@ + path),
{
    if nixconf::includes_in(lines, path) {
        let i = choose|i: int|
            0 <= i < lines.len() && nixconf::includes(#[trigger] lines[i], path);
        assert(text::trim(lines[i]) == "include "@ + path || text::trim(lines[i]) == "!include "@
            + path);
    }
    if exists|i: int|
        0 <= i < lines.len() && (text::trim(#[trigger] lines[i]) == "include "@ + path
            || text::trim(lines[i]) == "!include "@ + path) {
        let i = choose|i: int|
            0 <= i < lines.len() && (text::trim(#[trigger] lines[i]) == "include "@ + path
                || text::trim(lines[i]) == "!include "@ + path);
        assert(nixconf::includes(lines[i], path));
    }
}

}
