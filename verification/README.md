# momors_core

Reading of Japanese text (kanji and kana) as katakana with word boundaries,
for braille transcription, with its logic verified by Verus.

## Layout

- `src/` — the verified library.
  - `bytes`, `loader`, `vocab`, `boundary`, `ensemble`, `model`,
    `float_model`, `kanji_dict`, `name_dict`, `custom_dict`: the model file
    format (`.mbm` / `.mbmf`), its sections, and the model they give.
  - `char_type`, `normalize`, `bracket`, `brackets`: classification and
    normalization of the input, bracket handling.
  - `feature`, `featurize`: the feature keys of each unit of the text.
  - `numeric`, `counter`, `reading`, `decode`: the rules that turn the
    model's answers into readings.
  - `prediction`, `segments`: the result of a prediction, its alignment
    with the source text, and its segmentations.
  - `text`, `error`, `phase`, `diag`: helpers.
- `tests/` — tests of the library.
- `app/` — the part that runs outside the verifier: file loading, the
  `f32` scoring of the model, and the `Predictor` that ties them to the
  library.

## Numbers

The library holds every `f32` of the model as its bits (`u32`); app/ turns
them back into floats where it scores.
