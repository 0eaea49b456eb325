//! The form: how it is filled in, and the search that it describes.

use crate::tui::form::{ChipList, Flags, Focus, EXTENSION_CATALOG};
use crate::tui::state::{App, Prefill};
use crate::types::{IndexConfig, SearchConfig};
use vstd::prelude::*;

verus! {

/// The form starts with what it was given: the query empty, every flag and picker as
/// given, and a limit of 20 where none was given. The cursor is on the query.
pub proof fn law_form_at_the_start(
    prefill: Prefill,
    index_config: IndexConfig,
    chips: ChipList,
)
    ensures
        ({
            let v = crate::tui::state::start_view(prefill, index_config, chips);
            &&& v.phase is Setup
            &&& v.pattern.len() == 0
            &&& v.directory == prefill.directory@
            &&& v.flags == (Flags {
                case_sensitive: prefill.case_sensitive,
                use_regex: prefill.use_regex,
                ocr: prefill.ocr_enabled,
                include_hidden: prefill.include_hidden,
                show_preview: prefill.show_preview,
                use_index: index_config.use_index,
                save_index: index_config.save_index,
                cursor: 0,
            })
            &&& prefill.limit > 0 ==> v.limit == prefill.limit
            &&& prefill.limit == 0 ==> v.limit == 20
            &&& v.ocr_engine == prefill.ocr_engine
            &&& v.max_depth == prefill.max_depth
            &&& v.focus == Focus::Pattern
            &&& v.toast is None
            &&& !v.should_quit
            &&& v.chips.len() == chips.chips@.len()
            &&& forall|i: int|
                0 <= i < v.chips.len() ==> (#[trigger] v.chips[i]) == (
                    chips.chips@[i].0@,
                    chips.chips@[i].1,
                )
        }),
{
}

/// The chips are those of the catalog and behind them the given extensions that are not
/// in it, in lowercase and without the dots before them, none of them twice. A chip is
/// on exactly if its extension was given.
pub proof fn law_given_extensions_are_on(extensions: Vec<String>, list: ChipList)
    requires
        call_ensures(ChipList::new, (&extensions,), list),
    ensures
        ({
            let catalog = seq![
                "txt"@, "md"@, "pdf"@, "docx"@, "rs"@, "py"@, "js"@, "ts"@, "json"@, "yaml"@,
                "toml"@, "html"@, "css"@, "go"@, "java"@, "c"@, "cpp"@, "sh"@, "log"@, "csv"@,
                "png"@, "jpg"@,
            ];
            let chips = list.chips@;
            &&& list.cursor == 0
            &&& catalog.len() <= chips.len()
            &&& forall|i: int|
                0 <= i < catalog.len() ==> (#[trigger] chips[i]).0@ == catalog[i]
            &&& forall|k: int|
                0 <= k < extensions@.len() ==> exists|i: int|
                    0 <= i < chips.len() && (#[trigger] chips[i]).1 && chips[i].0@
                        == crate::text::lower_of(
                        crate::text::without_leading((#[trigger] extensions@[k])@, '.'),
                    )
            &&& forall|i: int|
                0 <= i < chips.len() && (#[trigger] chips[i]).1 ==> exists|k: int|
                    0 <= k < extensions@.len() && chips[i].0@ == crate::text::lower_of(
                        crate::text::without_leading((#[trigger] extensions@[k])@, '.'),
                    )
            &&& forall|i: int, j: int|
                0 <= i < j < chips.len() && catalog.len() <= j ==> (#[trigger] chips[i]).0@ != (
                #[trigger] chips[j]).0@
        }),
{
    let catalog = seq![
        "txt"@, "md"@, "pdf"@, "docx"@, "rs"@, "py"@, "js"@, "ts"@, "json"@, "yaml"@, "toml"@,
        "html"@, "css"@, "go"@, "java"@, "c"@, "cpp"@, "sh"@, "log"@, "csv"@, "png"@, "jpg"@,
    ];
    let names = crate::tui::form::chip_names(extensions@);
    let extras = crate::tui::form::unlisted(names);
    let chips = list.chips@;
    let n: int = catalog.len() as int;
    assert(catalog =~= EXTENSION_CATALOG@.map_values(|s: &'static str| s@));
    assert forall|i: int| 0 <= i < n implies catalog[i] == #[trigger] EXTENSION_CATALOG@[i]@ by {}
    lemma_unlisted(names);
    assert forall|i: int| 0 <= i < n implies (#[trigger] chips[i]).0@ == catalog[i] by {}
    assert forall|k: int| 0 <= k < extensions@.len() implies exists|i: int|
        0 <= i < chips.len() && (#[trigger] chips[i]).1 && chips[i].0@ == crate::text::lower_of(
            crate::text::without_leading((#[trigger] extensions@[k])@, '.'),
        ) by {
        let name = names[k];
        assert(names.contains(name));
        if crate::text::listed(name, EXTENSION_CATALOG@) {
            let i = choose|i: int|
                0 <= i < EXTENSION_CATALOG@.len() && (#[trigger] EXTENSION_CATALOG@[i])@ == name;
            assert(chips[i].1 && chips[i].0@ == name);
        } else {
            assert(extras.contains(name));
            let i = choose|i: int| 0 <= i < extras.len() && extras[i] == name;
            assert(chips[n + i].1 && chips[n + i].0@ == name);
        }
    }
    assert forall|i: int| 0 <= i < chips.len() && (#[trigger] chips[i]).1 implies exists|k: int|
        0 <= k < extensions@.len() && chips[i].0@ == crate::text::lower_of(
            crate::text::without_leading((#[trigger] extensions@[k])@, '.'),
        ) by {
        let name = chips[i].0@;
        if i >= n {
            assert(extras[i - n] == name);
            assert(extras.contains(name));
        }
        assert(names.contains(name));
        let k = choose|k: int| 0 <= k < names.len() && names[k] == name;
        assert(extensions@[k]@ == extensions@[k]@);
    }
    assert forall|i: int, j: int| 0 <= i < j < chips.len() && n <= j implies (
    #[trigger] chips[i]).0@ != (#[trigger] chips[j]).0@ by {
        assert(extras.contains(extras[j - n]));
        if i < n {
            assert(EXTENSION_CATALOG@[i]@ == chips[i].0@);
            if chips[i].0@ == chips[j].0@ {
                assert(crate::text::listed(extras[j - n], EXTENSION_CATALOG@));
            }
        } else {
            assert(extras[i - n] != extras[j - n]);
        }
    }
}

proof fn lemma_unlisted(names: Seq<Seq<char>>)
    ensures
        ({
            let extras = crate::tui::form::unlisted(names);
            &&& forall|name: Seq<char>| #[trigger]
                extras.contains(name) <==> names.contains(name) && !crate::text::listed(
                    name,
                    EXTENSION_CATALOG@,
                )
            &&& forall|i: int, j: int| 0 <= i < j < extras.len() ==> extras[i] != extras[j]
        }),
    decreases names.len(),
{
    let extras = crate::tui::form::unlisted(names);
    if names.len() > 0 {
        let init = names.drop_last();
        let before = crate::tui::form::unlisted(init);
        lemma_unlisted(init);
        assert forall|name: Seq<char>| #[trigger]
            extras.contains(name) <==> names.contains(name) && !crate::text::listed(
                name,
                EXTENSION_CATALOG@,
            ) by {
            assert(names =~= init.push(names.last()));
            assert(names.contains(name) <==> init.contains(name) || name == names.last()) by {
                if init.contains(name) {
                    let k = choose|k: int| 0 <= k < init.len() && init[k] == name;
                    assert(names[k] == name);
                }
                if name == names.last() {
                    assert(names[names.len() - 1] == name);
                }
                if names.contains(name) && name != names.last() {
                    let k = choose|k: int| 0 <= k < names.len() && names[k] == name;
                    assert(init[k] == name);
                }
            }
            if extras != before {
                assert(extras.contains(name) <==> before.contains(name) || name == names.last())
                    by {
                    if before.contains(name) {
                        let k = choose|k: int| 0 <= k < before.len() && before[k] == name;
                        assert(extras[k] == name);
                    }
                    if name == names.last() {
                        assert(extras[before.len() as int] == name);
                    }
                }
            }
        }
        assert forall|i: int, j: int| 0 <= i < j < extras.len() implies extras[i] != extras[j] by {
            if j == before.len() {
                assert(before.contains(before[i]));
            }
        }
    }
}

/// One more extension adds at most one chip, behind the others.
pub proof fn law_new_chip_comes_last(names: Seq<Seq<char>>, name: Seq<char>)
    ensures
        ({
            let before = crate::tui::form::unlisted(names);
            let after = crate::tui::form::unlisted(names.push(name));
            after == before || after == before.push(name)
        }),
{
    assert(names.push(name).drop_last() =~= names);
}

/// The search that the form describes: its query, its flags and its pickers as they
/// stand, in the directory that it is asked for, and for the extensions of the chips
/// that are on, in their order.
pub proof fn law_form_is_the_search(app: App, directory: Seq<char>, config: SearchConfig)
    requires
        crate::tui::state::is_config_of(app, directory, config),
    ensures
        config.directory@ == directory,
        config.pattern@ == app.pattern@,
        config.case_sensitive == app.flags.case_sensitive,
        config.use_regex == app.flags.use_regex,
        config.include_hidden == app.flags.include_hidden,
        config.show_preview == app.flags.show_preview,
        config.limit == app.limit,
        config.max_depth == app.max_depth,
        config.ocr.enabled == app.flags.ocr,
        config.ocr.engine == app.ocr_engine,
        config.ocr.language@ == "eng"@,
        !config.ocr.fast_mode,
        config.ocr.vision_llm.endpoint@ == app.vision_llm.endpoint@,
        config.ocr.vision_llm.model@ == app.vision_llm.model@,
        config.ocr.vision_llm.prompt@ == app.vision_llm.prompt@,
        config.ocr.vision_llm.timeout_secs == app.vision_llm.timeout_secs,
        config.ocr.vision_llm.api_key is Some <==> app.vision_llm.api_key is Some,
        config.ocr.vision_llm.api_key is Some ==> config.ocr.vision_llm.api_key->0@
            == app.vision_llm.api_key->0@,
        ({
            let on = app.extensions.chips@.filter(|c: (String, bool)| c.1);
            &&& config.extensions@.len() == on.len()
            &&& forall|i: int|
                0 <= i < on.len() ==> (#[trigger] config.extensions@[i])@ == on[i].0@
        }),
{
    let on = app.extensions.chips@.filter(|c: (String, bool)| c.1);
    let names = crate::text::views(config.extensions@);
    assert(names.len() == config.extensions@.len());
    assert(names.len() == on.len());
    assert forall|i: int| 0 <= i < on.len() implies (#[trigger] config.extensions@[i])@
        == on[i].0@ by {
        assert(names[i] == config.extensions@[i]@);
        assert(app.extensions.names_on()[i] == on[i].0@);
    }
}

/// The flags of the form decide whether the index is used and whether it is saved; its
/// file is the one that was given.
pub proof fn law_form_decides_on_the_index(app: App, config: IndexConfig)
    requires
        crate::tui::state::is_index_config_of(app, config),
    ensures
        config.use_index == app.flags.use_index,
        config.save_index == app.flags.save_index,
        config.index_file is Some <==> app.index_config.index_file is Some,
        config.index_file is Some ==> config.index_file->0@ == app.index_config.index_file->0@,
{
}

} // verus!
