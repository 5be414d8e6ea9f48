# slowrx

An SSTV (slow-scan television) decoder: PD 120/180/240, Robot 24/36/72 and
the Scottie family, from raw audio to RGB images.

## Layout

- `src/` is the verified library (Verus). It holds the decoder's integer
  logic with contracts and proofs:
  - `modespec`: the mode table, VIS-code lookup and channel timing, with
    laws that VIS codes identify modes and that lookup inverts the table;
  - `vis`: the VIS frame matcher, the tone history ring and the hop clock,
    with the law that every 7-bit code decodes from its ideal frame and
    that a parity error is rejected;
  - `demod`: SNR-adaptive Hann-window selection with hysteresis (monotone,
    one band per step, a 1 dB dead band, convergence);
  - `sync`: the sync-probe schedule, the Hough vote accumulator and the
    falling-edge search of the column accumulator;
  - `mode_pd`, `mode_robot`: YCbCr to RGB and the Robot 24/36 chroma
    planes (each row reads the chroma of its own and the previous line);
  - `image`, `decoder`, `resample`, `snr`, `error`: the image buffer,
    image-length planning, sample-rate validation, SNR band bookkeeping
    and the error type.
- `app/` is the command-line program and the floating-point signal
  processing (FFTs, resampling, tone estimation, SNR), which call into the
  library for every decision it can make.
- `tests/` runs the library on concrete values.

All durations are whole nanoseconds and SNR values are thousandths of a
decibel, so the library computes exactly.
