//! The word-count demo project: deterministic text generation, splitting
//! the text into per-task chunks, and folding the stored rows back into
//! progress and result summaries.

use vstd::prelude::*;

use crate::validator::TaskPayload;

verus! {

/// ASCII whitespace, as the splitter treats it.
pub open spec fn is_space(c: char) -> bool {
    c == ' ' || c == '\t' || c == '\n' || c == '\r'
}

/// Tokeniser state after reading a prefix: the words already closed, and
/// the word still open.
pub open spec fn tok_state(s: Seq<char>) -> (Seq<Seq<char>>, Seq<char>)
    decreases s.len(),
{
    if s.len() == 0 {
        (Seq::empty(), Seq::empty())
    } else {
        let prior = tok_state(s.drop_last());
        let c = s.last();
        if is_space(c) {
            if prior.1.len() > 0 {
                (prior.0.push(prior.1), Seq::empty())
            } else {
                (prior.0, Seq::empty())
            }
        } else {
            (prior.0, prior.1.push(c))
        }
    }
}

/// The whitespace-separated words of a text.
pub open spec fn spec_tokens(s: Seq<char>) -> Seq<Seq<char>> {
    let st = tok_state(s);
    if st.1.len() > 0 {
        st.0.push(st.1)
    } else {
        st.0
    }
}

/// Split a text into its whitespace-separated words.
pub fn tokenize(text: &str) -> (r: Vec<String>)
    ensures
        r.deep_view() == spec_tokens(text@),
{
    let len = text.unicode_len();
    let mut words: Vec<String> = Vec::new();
    let mut cur = String::new();
    let mut i: usize = 0;
    proof {
        assert(text@.take(0) =~= Seq::<char>::empty());
    }
    while i < len
        invariant
            i <= len,
            len == text@.len(),
            words.deep_view() == tok_state(text@.take(i as int)).0,
            cur@ == tok_state(text@.take(i as int)).1,
        decreases len - i,
    {
        proof {
            assert(text@.take(i + 1).drop_last() =~= text@.take(i as int));
            assert(text@.take(i + 1).last() == text@[i as int]);
        }
        let c = text.get_char(i);
        if c == ' ' || c == '\t' || c == '\n' || c == '\r' {
            if cur.as_str().unicode_len() > 0 {
                let ghost old_words = words.deep_view();
                let ghost old_cur = cur@;
                words.push(cur);
                cur = String::new();
                proof {
                    assert(words.deep_view() =~= old_words.push(old_cur));
                }
            }
        } else {
            cur.push(c);
        }
        i = i + 1;
    }
    proof {
        assert(text@.take(len as int) =~= text@);
    }
    if cur.as_str().unicode_len() > 0 {
        let ghost old_words = words.deep_view();
        let ghost old_cur = cur@;
        words.push(cur);
        proof {
            assert(words.deep_view() =~= old_words.push(old_cur));
        }
    }
    words
}

/// The words joined with single spaces.
pub open spec fn spec_join(ws: Seq<Seq<char>>) -> Seq<char>
    decreases ws.len(),
{
    if ws.len() == 0 {
        Seq::empty()
    } else if ws.len() == 1 {
        ws[0]
    } else {
        spec_join(ws.drop_last()) + seq![' '] + ws.last()
    }
}

/// The chunk size used to split `n` words into at most `parts` chunks.
pub open spec fn spec_part_size(n: nat, parts: nat) -> nat {
    ((n + parts - 1) as nat) / parts
}

/// Split a text into roughly equal word chunks: the words are cut into
/// runs of the ceiling of `words / parts`, and each run is joined back
/// with single spaces.  An empty text yields one empty chunk.
pub fn split_text(text: &str, parts: usize) -> (r: Vec<String>)
    requires
        parts >= 1,
    ensures
        spec_tokens(text@).len() == 0 ==> r@.len() == 1 && r@[0]@ == Seq::<char>::empty(),
        spec_tokens(text@).len() > 0 ==> {
            let ws = spec_tokens(text@);
            let psize = spec_part_size(ws.len(), parts as nat);
            &&& psize >= 1
            &&& r@.len() == ((ws.len() + psize - 1) as nat) / psize
            &&& forall|k: int|
                0 <= k < r@.len() ==> (#[trigger] r@[k])@ == spec_join(
                    ws.subrange(
                        k * psize,
                        if (k + 1) * psize < ws.len() {
                            (k + 1) * psize as int
                        } else {
                            ws.len() as int
                        },
                    ),
                )
        },
{
    let words = tokenize(text);
    let n = words.len();
    let ghost ws = spec_tokens(text@);
    proof {
        assert(ws.len() == n);
    }
    if n == 0 {
        let mut out: Vec<String> = Vec::new();
        out.push(String::new());
        return out;
    }
    let part_size = (n - 1) / parts + 1;
    let ghost psize = spec_part_size(ws.len(), parts as nat);
    proof {
        assert(part_size == psize) by (nonlinear_arith)
            requires
                n >= 1,
                parts >= 1,
                part_size == ((n - 1) as int) / (parts as int) + 1,
                psize == ((n + parts - 1) as int) / (parts as int),
        ;
    }
    let mut out: Vec<String> = Vec::new();
    let mut start: usize = 0;
    let ghost q: int = 0;
    while start < n
        invariant
            n == ws.len(),
            n >= 1,
            part_size == psize,
            1 <= part_size <= n,
            words.deep_view() == ws,
            n == words@.len(),
            0 <= q,
            out@.len() == q,
            start <= n,
            start < n ==> start == q * part_size,
            start == n ==> n <= q * part_size < n + part_size,
            forall|k: int|
                0 <= k < q ==> (#[trigger] out@[k])@ == spec_join(
                    ws.subrange(
                        k * psize,
                        if (k + 1) * psize < ws.len() {
                            (k + 1) * psize as int
                        } else {
                            ws.len() as int
                        },
                    ),
                ),
        decreases n - start,
    {
        let ghost c = q;
        let end = if n - start > part_size {
            start + part_size
        } else {
            n
        };
        proof {
            assert(words.deep_view()[start as int] == words@[start as int]@);
        }
        let mut chunk = words[start].clone();
        proof {
            assert(ws.subrange(start as int, start + 1) =~= seq![ws[start as int]]);
            assert(spec_join(ws.subrange(start as int, start + 1)) == ws[start as int]);
        }
        let mut j = start + 1;
        while j < end
            invariant
                start < j <= end,
                end <= n,
                n == ws.len(),
                n == words@.len(),
                words.deep_view() == ws,
                chunk@ == spec_join(ws.subrange(start as int, j as int)),
            decreases end - j,
        {
            proof {
                assert(words.deep_view()[j as int] == words@[j as int]@);
                assert(ws.subrange(start as int, j + 1).drop_last() =~= ws.subrange(
                    start as int,
                    j as int,
                ));
                assert(ws.subrange(start as int, j + 1).last() == ws[j as int]);
            }
            chunk.append(" ");
            chunk.append(words[j].as_str());
            proof {
                reveal_strlit(" ");
                assert(" "@ =~= seq![' ']);
            }
            j = j + 1;
        }
        out.push(chunk);
        proof {
            assert((c + 1) * part_size == c * part_size + part_size) by (nonlinear_arith);
            assert(end as int == (if (c + 1) * psize < ws.len() {
                (c + 1) * psize as int
            } else {
                ws.len() as int
            }));
            assert(out@[c]@ == spec_join(
                ws.subrange(
                    c * psize,
                    if (c + 1) * psize < ws.len() {
                        (c + 1) * psize as int
                    } else {
                        ws.len() as int
                    },
                ),
            ));
            q = c + 1;
        }
        start = end;
    }
    proof {
        assert(out@.len() == ((ws.len() + psize - 1) as nat) / psize) by (nonlinear_arith)
            requires
                psize >= 1,
                n == ws.len(),
                n >= 1,
                out@.len() == q,
                n <= q * psize < n + psize,
        ;
    }
    out
}

/// The sentence the demo text repeats.
pub open spec fn spec_demo_seed() -> Seq<char> {
    "Newral orchestrates distributed compute with trust and verification."@
}

/// The demo text: the seed sentence and a space, repeated `n` times.
pub open spec fn spec_demo_text(n: nat) -> Seq<char>
    decreases n,
{
    if n == 0 {
        Seq::empty()
    } else {
        spec_demo_text((n - 1) as nat) + spec_demo_seed() + seq![' ']
    }
}

/// Generate the deterministic demo text: four hundred repetitions of the
/// seed sentence.
pub fn generate_demo_text() -> (r: String)
    ensures
        r@ == spec_demo_text(400),
{
    let mut text = String::new();
    let mut i: usize = 0;
    while i < 400
        invariant
            i <= 400,
            text@ == spec_demo_text(i as nat),
        decreases 400 - i,
    {
        text.append("Newral orchestrates distributed compute with trust and verification.");
        text.push(' ');
        i = i + 1;
    }
    text
}

/// Progress of the demo project.
pub struct DemoStatusResponse {
    pub total: usize,
    pub completed: usize,
    pub running: usize,
    pub queued: usize,
}

/// The demo's aggregated result.
pub struct DemoResultResponse {
    pub total: usize,
    pub completed: usize,
    pub top_words: Vec<WordCount>,
}

/// One word of the demo's aggregated result.
pub struct WordCount {
    pub word: String,
    pub count: u64,
}

/// The start acknowledgement of a demo run.
pub struct DemoStartResponse {
    pub status: &'static str,
    pub project_id: i64,
    pub total_tasks: usize,
    pub group_id: String,
    pub parent_task_id: i64,
}

/// Parameters of a demo run.
pub struct DemoStartParams {
    pub parts: Option<usize>,
}

/// The sum of the counts recorded under this label.
pub open spec fn spec_label_total(rows: Seq<(String, usize)>, label: Seq<char>) -> int
    decreases rows.len(),
{
    if rows.len() == 0 {
        0
    } else {
        spec_label_total(rows.drop_last(), label) + if rows.last().0@ == label {
            rows.last().1 as int
        } else {
            0
        }
    }
}

/// Fold the per-status counts of the demo's tasks into a progress summary:
/// `done`, `running` and `queued` rows are counted, anything else is
/// ignored, and the total covers exactly those three.
pub fn fold_status_counts(rows: &Vec<(String, usize)>) -> (r: DemoStatusResponse)
    requires
        spec_label_total(rows@, "done"@) + spec_label_total(rows@, "running"@) + spec_label_total(
            rows@,
            "queued"@,
        ) <= usize::MAX,
    ensures
        r.completed == spec_label_total(rows@, "done"@),
        r.running == spec_label_total(rows@, "running"@),
        r.queued == spec_label_total(rows@, "queued"@),
        r.total == r.completed + r.running + r.queued,
{
    let len = rows.len();
    let mut completed: usize = 0;
    let mut running: usize = 0;
    let mut queued: usize = 0;
    let mut i: usize = 0;
    while i < len
        invariant
            i <= len,
            len == rows@.len(),
            spec_label_total(rows@, "done"@) + spec_label_total(rows@, "running"@)
                + spec_label_total(rows@, "queued"@) <= usize::MAX,
            completed == spec_label_total(rows@.take(i as int), "done"@),
            running == spec_label_total(rows@.take(i as int), "running"@),
            queued == spec_label_total(rows@.take(i as int), "queued"@),
        decreases len - i,
    {
        proof {
            assert(rows@.take(i + 1).drop_last() =~= rows@.take(i as int));
            assert(rows@.take(i + 1).last() == rows@[i as int]);
            lemma_label_total_prefix_le(rows@, i + 1, "done"@);
            lemma_label_total_prefix_le(rows@, i + 1, "running"@);
            lemma_label_total_prefix_le(rows@, i + 1, "queued"@);
            lemma_label_total_nonneg(rows@.take(i + 1), "done"@);
            lemma_label_total_nonneg(rows@.take(i + 1), "running"@);
            lemma_label_total_nonneg(rows@.take(i + 1), "queued"@);
        }
        proof {
            reveal_strlit("done");
            reveal_strlit("running");
            reveal_strlit("queued");
            assert("done"@.len() == 4);
            assert("running"@.len() == 7);
            assert("queued"@.len() == 6);
        }
        let row = &rows[i];
        if crate::text::str_eq(row.0.as_str(), "done") {
            completed = completed + row.1;
        } else if crate::text::str_eq(row.0.as_str(), "running") {
            running = running + row.1;
        } else if crate::text::str_eq(row.0.as_str(), "queued") {
            queued = queued + row.1;
        }
        i = i + 1;
    }
    proof {
        assert(rows@.take(len as int) =~= rows@);
    }
    DemoStatusResponse { total: completed + running + queued, completed, running, queued }
}

/// A label's total over a prefix never exceeds its total over the whole
/// list: counts are non-negative.
pub proof fn lemma_label_total_prefix_le(rows: Seq<(String, usize)>, n: int, label: Seq<char>)
    requires
        0 <= n <= rows.len(),
    ensures
        spec_label_total(rows.take(n), label) <= spec_label_total(rows, label),
    decreases rows.len() - n,
{
    if n == rows.len() {
        assert(rows.take(n) =~= rows);
    } else {
        lemma_label_total_prefix_le(rows, n + 1, label);
        assert(rows.take(n + 1).drop_last() =~= rows.take(n));
        assert(rows.take(n + 1).last() == rows[n]);
    }
}

/// A label's total is never negative.
pub proof fn lemma_label_total_nonneg(rows: Seq<(String, usize)>, label: Seq<char>)
    ensures
        spec_label_total(rows, label) >= 0,
    decreases rows.len(),
{
    if rows.len() > 0 {
        lemma_label_total_nonneg(rows.drop_last(), label);
    }
}


/// The total recorded for a word in one result list.
pub open spec fn wc_total(entries: Seq<WordCount>, w: Seq<char>) -> int
    decreases entries.len(),
{
    if entries.len() == 0 {
        0
    } else {
        wc_total(entries.drop_last(), w) + if entries.last().word@ == w {
            entries.last().count as int
        } else {
            0
        }
    }
}

/// The total recorded for a word across every result list.
pub open spec fn rows_wc_total(rows: Seq<Vec<WordCount>>, w: Seq<char>) -> int
    decreases rows.len(),
{
    if rows.len() == 0 {
        0
    } else {
        rows_wc_total(rows.drop_last(), w) + wc_total(rows.last()@, w)
    }
}

/// Each word appears at most once.
pub open spec fn wc_distinct(s: Seq<WordCount>) -> bool {
    forall|k: int, l: int| 0 <= k < l < s.len() ==> (#[trigger] s[k]).word@ != (#[trigger] s[l]).word@
}

/// A word total is never negative.
pub proof fn lemma_wc_total_nonneg(entries: Seq<WordCount>, w: Seq<char>)
    ensures
        wc_total(entries, w) >= 0,
    decreases entries.len(),
{
    if entries.len() > 0 {
        lemma_wc_total_nonneg(entries.drop_last(), w);
    }
}

/// A cross-list total is never negative.
pub proof fn lemma_rows_wc_total_nonneg(rows: Seq<Vec<WordCount>>, w: Seq<char>)
    ensures
        rows_wc_total(rows, w) >= 0,
    decreases rows.len(),
{
    if rows.len() > 0 {
        lemma_rows_wc_total_nonneg(rows.drop_last(), w);
        lemma_wc_total_nonneg(rows.last()@, w);
    }
}

/// A prefix of one list never totals above the whole list.
pub proof fn lemma_wc_total_prefix_le(entries: Seq<WordCount>, n: int, w: Seq<char>)
    requires
        0 <= n <= entries.len(),
    ensures
        wc_total(entries.take(n), w) <= wc_total(entries, w),
    decreases entries.len() - n,
{
    if n == entries.len() {
        assert(entries.take(n) =~= entries);
    } else {
        lemma_wc_total_prefix_le(entries, n + 1, w);
        assert(entries.take(n + 1).drop_last() =~= entries.take(n));
        assert(entries.take(n + 1).last() == entries[n]);
    }
}

/// A prefix of the rows never totals above all rows.
pub proof fn lemma_rows_wc_total_prefix_le(rows: Seq<Vec<WordCount>>, n: int, w: Seq<char>)
    requires
        0 <= n <= rows.len(),
    ensures
        rows_wc_total(rows.take(n), w) <= rows_wc_total(rows, w),
    decreases rows.len() - n,
{
    if n == rows.len() {
        assert(rows.take(n) =~= rows);
    } else {
        lemma_rows_wc_total_prefix_le(rows, n + 1, w);
        assert(rows.take(n + 1).drop_last() =~= rows.take(n));
        assert(rows.take(n + 1).last() == rows[n]);
        lemma_wc_total_nonneg(rows[n]@, w);
    }
}

/// The index of the entry carrying this word, if any.
fn find_word(out: &Vec<WordCount>, word: &String) -> (r: Option<usize>)
    ensures
        r matches Some(k) ==> k < out@.len() && out@[k as int].word@ == word@,
        r is None ==> forall|l: int| 0 <= l < out@.len() ==> (#[trigger] out@[l]).word@ != word@,
{
    let out_len = out.len();
    let mut k: usize = 0;
    while k < out_len
        invariant
            k <= out_len,
            out_len == out@.len(),
            forall|l: int| 0 <= l < k ==> (#[trigger] out@[l]).word@ != word@,
        decreases out_len - k,
    {
        if crate::text::str_eq(out[k].word.as_str(), word.as_str()) {
            return Some(k);
        }
        k = k + 1;
    }
    None
}

/// Merge the per-task word counts into one total per word.  For every
/// word, the merged list records exactly the sum of that word's counts
/// across the rows, and no word appears twice.
pub fn merge_word_counts(rows: &Vec<Vec<WordCount>>) -> (r: Vec<WordCount>)
    requires
        forall|w: Seq<char>| rows_wc_total(rows@, w) <= u64::MAX,
    ensures
        wc_distinct(r@),
        forall|w: Seq<char>| #[trigger] wc_total(r@, w) == rows_wc_total(rows@, w),
{
    let rows_len = rows.len();
    let mut out: Vec<WordCount> = Vec::new();
    let mut a: usize = 0;
    proof {
        assert forall|w: Seq<char>| #[trigger] wc_total(out@, w) == rows_wc_total(
            rows@.take(0),
            w,
        ) by {
            assert(rows@.take(0) =~= Seq::<Vec<WordCount>>::empty());
        }
    }
    while a < rows_len
        invariant
            a <= rows_len,
            rows_len == rows@.len(),
            forall|w: Seq<char>| rows_wc_total(rows@, w) <= u64::MAX,
            wc_distinct(out@),
            forall|w: Seq<char>| #[trigger] wc_total(out@, w) == rows_wc_total(rows@.take(a as int), w),
        decreases rows_len - a,
    {
        let row_len = rows[a].len();
        let mut b: usize = 0;
        proof {
            assert forall|w: Seq<char>| #[trigger] wc_total(out@, w) == rows_wc_total(
                rows@.take(a as int),
                w,
            ) + wc_total(rows@[a as int]@.take(0), w) by {
                assert(rows@[a as int]@.take(0) =~= Seq::<WordCount>::empty());
            }
        }
        while b < row_len
            invariant
                b <= row_len,
                a < rows_len,
                rows_len == rows@.len(),
                row_len == rows@[a as int]@.len(),
                forall|w: Seq<char>| rows_wc_total(rows@, w) <= u64::MAX,
                wc_distinct(out@),
                forall|w: Seq<char>| #[trigger] wc_total(out@, w) == rows_wc_total(
                    rows@.take(a as int),
                    w,
                ) + wc_total(rows@[a as int]@.take(b as int), w),
            decreases row_len - b,
        {
            let entry_word = rows[a][b].word.clone();
            let entry_count = rows[a][b].count;
            let ghost w0 = entry_word@;
            proof {
                assert(rows@[a as int]@.take(b + 1).drop_last() =~= rows@[a as int]@.take(
                    b as int,
                ));
                assert(rows@[a as int]@.take(b + 1).last() == rows@[a as int]@[b as int]);
                // The running total for this word stays within the cap.
                lemma_rows_wc_total_prefix_le(rows@, a as int, w0);
                assert(rows@.take(a + 1).drop_last() =~= rows@.take(a as int));
                assert(rows@.take(a + 1).last() == rows@[a as int]);
                lemma_rows_wc_total_prefix_le(rows@, a + 1, w0);
                lemma_wc_total_prefix_le(rows@[a as int]@, b + 1, w0);
                lemma_wc_total_nonneg(rows@[a as int]@.take(b as int), w0);
                lemma_rows_wc_total_nonneg(rows@.take(a as int), w0);
            }
            let found = find_word(&out, &entry_word);
            let ghost out_before = out@;
            if let Some(k) = found {
                proof {
                    assert(out@[k as int].word@ == w0);
                    lemma_wc_lookup_at(out@, k as int, w0);
                    assert(wc_total(out@, w0) <= u64::MAX - entry_count);
                }
                let new_count = out[k].count + entry_count;
                let word_again = out[k].word.clone();
                out[k] = WordCount { word: word_again, count: new_count };
                proof {
                    assert(out@ =~= out_before.update(
                        k as int,
                        WordCount {
                            word: out_before[k as int].word,
                            count: (out_before[k as int].count + entry_count) as u64,
                        },
                    ));
                    assert forall|w: Seq<char>| #[trigger] wc_total(out@, w) == rows_wc_total(
                        rows@.take(a as int),
                        w,
                    ) + wc_total(rows@[a as int]@.take(b + 1), w) by {
                        lemma_wc_total_update(out_before, k as int, entry_count as int, w);
                        assert(wc_total(out@, w) == wc_total(out_before, w) + (
                        if out_before[k as int].word@ == w {
                            entry_count as int
                        } else {
                            0
                        }));
                    }
                }
            } else {
                proof {
                    assert(forall|l: int| 0 <= l < out@.len() ==> (#[trigger] out@[l]).word@ != w0);
                }
                out.push(WordCount { word: entry_word, count: entry_count });
                proof {
                    assert forall|w: Seq<char>| #[trigger] wc_total(out@, w) == rows_wc_total(
                        rows@.take(a as int),
                        w,
                    ) + wc_total(rows@[a as int]@.take(b + 1), w) by {
                        assert(out@.drop_last() =~= out_before);
                        assert(wc_total(out@, w) == wc_total(out_before, w) + (if w0 == w {
                            entry_count as int
                        } else {
                            0
                        }));
                    }
                }
            }
            b = b + 1;
        }
        proof {
            assert(rows@[a as int]@.take(row_len as int) =~= rows@[a as int]@);
            assert(rows@.take(a + 1).drop_last() =~= rows@.take(a as int));
            assert(rows@.take(a + 1).last() == rows@[a as int]);
        }
        a = a + 1;
    }
    proof {
        assert(rows@.take(rows_len as int) =~= rows@);
    }
    out
}

/// In a distinct list, the total for a word found at one index is that
/// entry's count.
pub proof fn lemma_wc_lookup_at(s: Seq<WordCount>, i: int, w: Seq<char>)
    requires
        0 <= i < s.len(),
        s[i].word@ == w,
        wc_distinct(s),
    ensures
        wc_total(s, w) == s[i].count,
    decreases s.len(),
{
    if i == s.len() - 1 {
        lemma_wc_total_last_absent(s.drop_last(), w);
    } else {
        assert(s.drop_last()[i] == s[i]);
        lemma_wc_lookup_at(s.drop_last(), i, w);
        assert(s.last().word@ != w);
    }
}

/// A word that no entry carries totals zero.
pub proof fn lemma_wc_total_last_absent(s: Seq<WordCount>, w: Seq<char>)
    requires
        forall|l: int| 0 <= l < s.len() ==> (#[trigger] s[l]).word@ != w,
    ensures
        wc_total(s, w) == 0,
    decreases s.len(),
{
    if s.len() > 0 {
        lemma_wc_total_last_absent(s.drop_last(), w);
    }
}

/// Adding to one entry's count adds to exactly that word's total.
pub proof fn lemma_wc_total_update(s: Seq<WordCount>, i: int, c: int, w: Seq<char>)
    requires
        0 <= i < s.len(),
        s[i].count + c <= u64::MAX,
        0 <= c,
    ensures
        wc_total(s.update(i, WordCount { word: s[i].word, count: (s[i].count + c) as u64 }), w)
            == wc_total(s, w) + (if s[i].word@ == w {
            c
        } else {
            0
        }),
    decreases s.len(),
{
    let t = s.update(i, WordCount { word: s[i].word, count: (s[i].count + c) as u64 });
    if i == s.len() - 1 {
        assert(t.drop_last() =~= s.drop_last());
        assert(t.last() == WordCount { word: s[i].word, count: (s[i].count + c) as u64 });
    } else {
        let s2 = s.drop_last();
        lemma_wc_total_update(s2, i, c, w);
        assert(s2[i] == s[i]);
        assert(t.drop_last() =~= s2.update(
            i,
            WordCount { word: s2[i].word, count: (s2[i].count + c) as u64 },
        ));
        assert(wc_total(t.drop_last(), w) == wc_total(s2, w) + (if s[i].word@ == w {
            c
        } else {
            0
        }));
        assert(t.last() == s.last());
    }
}

/// Word lists sorted by count, largest first.
pub open spec fn wc_sorted_desc(s: Seq<WordCount>) -> bool {
    forall|k: int, l: int| 0 <= k < l < s.len() ==> (#[trigger] s[k]).count >= (#[trigger] s[l]).count
}

/// Sort word counts largest-count first by repeatedly extracting a
/// maximum.  The result carries exactly the same entries.
pub fn sort_word_counts(counts: Vec<WordCount>) -> (r: Vec<WordCount>)
    ensures
        wc_sorted_desc(r@),
        r@.to_multiset() == counts@.to_multiset(),
        r@.len() == counts@.len(),
{
    broadcast use vstd::seq_lib::group_to_multiset_ensures;

    let mut rest = counts;
    let mut out: Vec<WordCount> = Vec::new();
    let ghost everything = rest@.to_multiset();
    proof {
        broadcast use vstd::multiset::group_multiset_axioms;

        rest@.to_multiset_ensures();
        Seq::<WordCount>::empty().to_multiset_ensures();
        assert(out@ =~= Seq::<WordCount>::empty());
        assert(out@.to_multiset().add(rest@.to_multiset()) =~= everything);
    }
    while rest.len() > 0
        invariant
            wc_sorted_desc(out@),
            out@.to_multiset().add(rest@.to_multiset()) =~= everything,
            everything.len() == out@.len() + rest@.len(),
            forall|k: int, l: int|
                0 <= k < out@.len() && 0 <= l < rest@.len() ==> (#[trigger] out@[k]).count
                    >= (#[trigger] rest@[l]).count,
        decreases rest@.len(),
    {
        let rest_len = rest.len();
        let mut m: usize = 0;
        let mut j: usize = 1;
        while j < rest_len
            invariant
                m < j <= rest_len,
                rest_len == rest@.len(),
                forall|l: int| 0 <= l < j ==> (#[trigger] rest@[l]).count <= rest@[m as int].count,
            decreases rest_len - j,
        {
            if rest[j].count > rest[m].count {
                m = j;
            }
            j = j + 1;
        }
        let ghost rest_before = rest@;
        let ghost out_before = out@;
        let x = rest.remove(m);
        out.push(x);
        proof {
            broadcast use vstd::multiset::group_multiset_axioms;

            rest_before.to_multiset_ensures();
            out_before.to_multiset_ensures();
            assert(rest@ =~= rest_before.remove(m as int));
            assert(rest_before.remove(m as int).to_multiset() =~= rest_before.to_multiset().remove(
                rest_before[m as int],
            ));
            assert(rest_before.contains(rest_before[m as int]));
            assert(rest_before.to_multiset().count(rest_before[m as int]) > 0);
            assert(out@ =~= out_before.push(x));
            assert(out_before.push(x).to_multiset() =~= out_before.to_multiset().insert(x));
            assert(out@.to_multiset().add(rest@.to_multiset()) =~= everything);
            assert(everything.len() == out@.len() + rest@.len()) by {
                rest@.to_multiset_ensures();
                out@.to_multiset_ensures();
            }
            assert forall|l: int| 0 <= l < rest@.len() implies (#[trigger] rest@[l]).count
                <= x.count by {
                if l < m as int {
                    assert(rest@[l] == rest_before[l]);
                } else {
                    assert(rest@[l] == rest_before[l + 1]);
                }
            }
        }
    }
    proof {
        broadcast use vstd::multiset::group_multiset_axioms;

        rest@.to_multiset_ensures();
        assert(rest@.to_multiset().len() == 0);
        assert(out@.to_multiset() =~= everything);
    }
    out
}

/// The ten heaviest words: the merged counts, sorted by count largest
/// first, cut to at most ten entries.
pub fn top_word_counts(counts: Vec<WordCount>) -> (r: Vec<WordCount>)
    ensures
        exists|s: Seq<WordCount>|
            #![all_triggers]
            s.to_multiset() == counts@.to_multiset() && wc_sorted_desc(s) && r@ == s.take(
                if s.len() < 10 {
                    s.len() as int
                } else {
                    10
                },
            ),
{
    let ghost original = counts@;
    let mut sorted = sort_word_counts(counts);
    let ghost sorted_seq = sorted@;
    if sorted.len() > 10 {
        sorted.truncate(10);
    }
    proof {
        assert(sorted@ =~= sorted_seq.take(
            if sorted_seq.len() < 10 {
                sorted_seq.len() as int
            } else {
                10
            },
        ));
        assert(sorted_seq.to_multiset() == original.to_multiset() && wc_sorted_desc(sorted_seq)
            && sorted@ == sorted_seq.take(
            if sorted_seq.len() < 10 {
                sorted_seq.len() as int
            } else {
                10
            },
        ));
    }
    sorted
}


/// The script every demo chunk runs: a word count over `input.txt`.
pub const DEMO_SCRIPT: &'static str = "import json\n\nwith open(\"input.txt\", \"r\", encoding=\"utf-8\") as handle:\n    words = handle.read().split()\n\nresult = {}\nfor word in words:\n    word = word.lower()\n    result[word] = result.get(word, 0) + 1\n\nprint(json.dumps(result))\n";

/// The bookkeeping parent payload of a demo run: a `group` row that is
/// never dispatched.
pub fn plan_demo_group_payload(group_id: &str) -> (r: TaskPayload)
    ensures
        r.kind matches Some(s) && s@ == "group"@,
        r.group_id matches Some(g) && g@ == group_id@,
        r.script is None,
        r.script_url is None,
        r.inputs is None,
        r.parent_task_id is None,
{
    TaskPayload {
        kind: Some(String::from_str("group")),
        script: None,
        script_url: None,
        script_sha256: None,
        args: None,
        inputs: None,
        group_id: Some(String::from_str(group_id)),
        parent_task_id: None,
    }
}

/// One inline-script payload per text chunk: each runs the demo script
/// over its chunk as `input.txt`, under the run's group id and parent
/// task.
pub fn plan_demo_chunk_payloads(chunks: Vec<String>, group_id: &str, parent_task_id: i64) -> (r:
    Vec<TaskPayload>)
    ensures
        r@.len() == chunks@.len(),
        forall|k: int|
            0 <= k < r@.len() ==> {
                let p = #[trigger] r@[k];
                &&& p.kind matches Some(s) && s@ == "python_script"@
                &&& p.script matches Some(s) && s@ == DEMO_SCRIPT@
                &&& p.script_url is None
                &&& p.script_sha256 is None
                &&& p.args is None
                &&& p.group_id matches Some(g) && g@ == group_id@
                &&& p.parent_task_id == Some(parent_task_id)
                &&& p.inputs matches Some(ins) && ins@.len() == 1 && ins@[0].0@ == "input.txt"@
                    && ins@[0].1@ == chunks@[k]@
            },
{
    let n = chunks.len();
    let mut out: Vec<TaskPayload> = Vec::new();
    let mut i: usize = 0;
    while i < n
        invariant
            i <= n,
            n == chunks@.len(),
            out@.len() == i,
            forall|k: int|
                0 <= k < i ==> {
                    let p = #[trigger] out@[k];
                    &&& p.kind matches Some(s) && s@ == "python_script"@
                    &&& p.script matches Some(s) && s@ == DEMO_SCRIPT@
                    &&& p.script_url is None
                    &&& p.script_sha256 is None
                    &&& p.args is None
                    &&& p.group_id matches Some(g) && g@ == group_id@
                    &&& p.parent_task_id == Some(parent_task_id)
                    &&& p.inputs matches Some(ins) && ins@.len() == 1 && ins@[0].0@
                        == "input.txt"@ && ins@[0].1@ == chunks@[k]@
                },
        decreases n - i,
    {
        let mut inputs: Vec<(String, String)> = Vec::new();
        inputs.push((String::from_str("input.txt"), chunks[i].clone()));
        out.push(
            TaskPayload {
                kind: Some(String::from_str("python_script")),
                script: Some(String::from_str(DEMO_SCRIPT)),
                script_url: None,
                script_sha256: None,
                args: None,
                inputs: Some(inputs),
                group_id: Some(String::from_str(group_id)),
                parent_task_id: Some(parent_task_id),
            },
        );
        i = i + 1;
    }
    out
}

} // verus!
